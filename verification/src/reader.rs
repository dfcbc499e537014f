//! How a client reads what the servers send: the laws of the responses and of the stream, stated
//! over what is read back.

use vstd::prelude::*;

use crate::http;
use crate::text;
use crate::viewfinder;

verus! {

// ---------------------------------------------------------------------------
// A reader of messages
// ---------------------------------------------------------------------------
/// Bytes taken as characters one by one.
pub open spec fn ascii_text(s: Seq<u8>) -> Seq<char> {
    s.map_values(|b: u8| b as char)
}

/// A message with a head in lines, a blank line, and a body whose length the head announces: the
/// head without its last line end, the body, and what follows it.
pub open spec fn read_message(s: Seq<u8>) -> (Seq<char>, Seq<u8>, Seq<u8>) {
    let t = ascii_text(s);
    let end = text::first_at(t, 0, "\r\n\r\n"@);
    let n = text::digits_value(text::between(t, 0, "Content-Length: "@, "\r\n"@)) as int;
    (t.take(end), s.subrange(end + 4, end + 4 + n), s.skip(end + 4 + n))
}

/// The part of a head between a word and the end of the line.
pub open spec fn field(head: Seq<char>, word: Seq<char>) -> Seq<char> {
    text::between(head, 0, word, "\r\n"@)
}

/// Whether a text is one line of ASCII characters without a colon, as status texts and content
/// types are.
pub open spec fn is_plain(s: Seq<char>) -> bool {
    vstd::utf8::is_ascii_chars(s) && no_char(s, '\r') && no_char(s, ':')
}

/// Whether a character does not occur in a text.
pub open spec fn no_char(s: Seq<char>, c: char) -> bool {
    forall|i: int| 0 <= i < s.len() ==> #[trigger] s[i] != c
}

// ---------------------------------------------------------------------------
// Searching in lines
// ---------------------------------------------------------------------------
proof fn stands_shift(p: Seq<char>, s: Seq<char>, at: int, word: Seq<char>)
    requires
        0 <= at,
    ensures
        text::stands_at(p + s, p.len() + at, word) == text::stands_at(s, at, word),
{
    let t = p + s;
    assert forall|k: int| 0 <= k < word.len() && at + word.len() <= s.len() implies #[trigger] s[at
        + k] == t[p.len() + at + k] by {}
    if text::stands_at(s, at, word) {
        assert forall|k: int| 0 <= k < word.len() implies #[trigger] t[p.len() + at + k]
            == word[k] by {
            assert(s[at + k] == word[k]);
        }
    }
    if text::stands_at(t, p.len() + at, word) {
        assert forall|k: int| 0 <= k < word.len() implies #[trigger] s[at + k] == word[k] by {
            assert(t[p.len() + at + k] == word[k]);
        }
    }
}

/// A text in front shifts what is found behind it.
proof fn first_at_shift(p: Seq<char>, s: Seq<char>, from: int, word: Seq<char>)
    requires
        0 <= from <= s.len(),
    ensures
        text::first_at(p + s, p.len() + from, word) == p.len() + text::first_at(s, from, word),
    decreases s.len() - from,
{
    if from < s.len() {
        stands_shift(p, s, from, word);
        if !text::stands_at(s, from, word) {
            first_at_shift(p, s, from + 1, word);
        }
    }
}

/// Where a word does not stand, the search goes on.
proof fn first_at_skip(s: Seq<char>, from: int, to: int, word: Seq<char>)
    requires
        0 <= from <= to <= s.len(),
        forall|k: int| from <= k < to ==> !#[trigger] text::stands_at(s, k, word),
    ensures
        text::first_at(s, from, word) == text::first_at(s, to, word),
    decreases to - from,
{
    if from < to {
        assert(!text::stands_at(s, from, word));
        first_at_skip(s, from + 1, to, word);
    }
}

/// The blank line is not within or behind a line that another one follows.
proof fn blank_line_is_later(line: Seq<char>, rest: Seq<char>)
    requires
        no_char(line, '\r'),
        rest.len() > 0,
        rest[0] != '\r',
    ensures
        text::first_at(line + "\r\n"@ + rest, 0, "\r\n\r\n"@) == line.len() + 2 + text::first_at(
            rest,
            0,
            "\r\n\r\n"@,
        ),
{
    reveal_strlit("\r\n");
    reveal_strlit("\r\n\r\n");
    let word = "\r\n\r\n"@;
    let p = line + "\r\n"@;
    let t = p + rest;
    let n = line.len() as int;
    assert(word[0] == '\r' && word[2] == '\r');
    assert forall|k: int| 0 <= k < n + 2 implies !#[trigger] text::stands_at(t, k, word) by {
        if text::stands_at(t, k, word) {
            assert(t[k + 0] == word[0]);
            assert(t[k + 2] == word[2]);
            if k < n {
                assert(t[k] == line[k]);
            } else if k == n {
                assert(t[k + 2] == rest[0]);
            } else {
                assert(t[k] == '\n');
            }
        }
    }
    first_at_skip(t, 0, n + 2, word);
    first_at_shift(p, rest, 0, word);
}

/// The blank line ends the last line.
proof fn blank_line_is_here(line: Seq<char>, rest: Seq<char>)
    requires
        no_char(line, '\r'),
    ensures
        text::first_at(line + "\r\n\r\n"@ + rest, 0, "\r\n\r\n"@) == line.len(),
{
    reveal_strlit("\r\n\r\n");
    let word = "\r\n\r\n"@;
    let t = line + word + rest;
    let n = line.len() as int;
    assert forall|k: int| 0 <= k < n implies !#[trigger] text::stands_at(t, k, word) by {
        if text::stands_at(t, k, word) {
            assert(t[k + 0] == word[0]);
            assert(t[k] == line[k]);
        }
    }
    assert(text::stands_at(t, n, word)) by {
        assert forall|k: int| 0 <= k < word.len() implies #[trigger] t[n + k] == word[k] by {}
    }
    text::first_at_is(t, 0, word, n);
}

/// A word without a line end that does not stand in a line is found behind it.
proof fn word_is_later(line: Seq<char>, rest: Seq<char>, word: Seq<char>)
    requires
        no_char(word, '\r'),
        no_char(word, '\n'),
        word.len() > 0,
        forall|k: int| !#[trigger] text::stands_at(line, k, word),
    ensures
        text::first_at(line + "\r\n"@ + rest, 0, word) == line.len() + 2 + text::first_at(
            rest,
            0,
            word,
        ),
{
    reveal_strlit("\r\n");
    let p = line + "\r\n"@;
    let t = p + rest;
    let n = line.len() as int;
    assert forall|k: int| 0 <= k < n + 2 implies !#[trigger] text::stands_at(t, k, word) by {
        if text::stands_at(t, k, word) {
            if k + word.len() <= n {
                assert forall|j: int| 0 <= j < word.len() implies #[trigger] line[k + j]
                    == word[j] by {
                    assert(t[k + j] == word[j]);
                }
                assert(text::stands_at(line, k, word));
            } else if k <= n {
                assert(t[k + (n - k)] == word[n - k]);
            } else {
                assert(t[k + 0] == word[0]);
            }
        }
    }
    first_at_skip(t, 0, n + 2, word);
    first_at_shift(p, rest, 0, word);
}

/// A line ends at its line end.
proof fn line_ends_here(p: Seq<char>, line: Seq<char>, rest: Seq<char>)
    requires
        no_char(line, '\r'),
    ensures
        text::first_at(p + line + "\r\n"@ + rest, p.len() as int, "\r\n"@) == p.len() + line.len(),
        (p + line + "\r\n"@ + rest).subrange(p.len() as int, (p.len() + line.len()) as int) == line,
{
    reveal_strlit("\r\n");
    let word = "\r\n"@;
    let t = p + line + word + rest;
    let m = p.len() as int;
    let n = line.len() as int;
    assert forall|k: int| m <= k < m + n implies !#[trigger] text::stands_at(t, k, word) by {
        if text::stands_at(t, k, word) {
            assert(t[k + 0] == word[0]);
            assert(t[k] == line[k - m]);
        }
    }
    assert(text::stands_at(t, m + n, word)) by {
        assert forall|k: int| 0 <= k < word.len() implies #[trigger] t[m + n + k] == word[k] by {}
    }
    text::first_at_is(t, m, word, m + n);
    assert(t.subrange(m, m + n) =~= line);
}

/// A line that begins with a word has it there.
proof fn word_is_here(word: Seq<char>, rest: Seq<char>)
    requires
        word.len() > 0,
    ensures
        text::first_at(word + rest, 0, word) == 0,
{
    let t = word + rest;
    assert forall|k: int| 0 <= k < word.len() implies #[trigger] t[0 + k] == word[k] by {}
    assert(text::stands_at(t, 0, word));
}

/// A line without a colon behind its 14th character announces no length.
proof fn announces_nothing(line: Seq<char>)
    requires
        forall|i: int| 14 <= i < line.len() ==> #[trigger] line[i] != ':',
    ensures
        forall|k: int| !#[trigger] text::stands_at(line, k, "Content-Length: "@),
{
    reveal_strlit("Content-Length: ");
    let word = "Content-Length: "@;
    assert(word[14] == ':');
    assert forall|k: int| !#[trigger] text::stands_at(line, k, word) by {
        if text::stands_at(line, k, word) {
            assert(line[k + 14] == word[14]);
        }
    }
}

proof fn digits_are_plain(n: nat)
    ensures
        is_plain(text::dec(n)),
        text::dec(n).len() > 0,
        text::digits_value(text::dec(n)) == n,
{
    text::dec_reads_back(n);
    let d = text::dec(n);
    assert forall|i: int| 0 <= i < d.len() implies #[trigger] d[i] != '\r' && d[i] != ':' && '\0'
        <= d[i] <= '\u{7f}' by {
        assert(text::is_digit(d[i]));
    }
}

/// A head in ASCII is read as it was written.
proof fn head_is_read(head: Seq<char>, tail: Seq<u8>)
    requires
        vstd::utf8::is_ascii_chars(head),
    ensures
        vstd::utf8::encode_utf8(head).len() == head.len(),
        ascii_text(vstd::utf8::encode_utf8(head) + tail) == head + ascii_text(tail),
{
    vstd::utf8::is_ascii_chars_encode_utf8(head);
    let s = vstd::utf8::encode_utf8(head) + tail;
    assert(ascii_text(s) =~= head + ascii_text(tail));
}

// ---------------------------------------------------------------------------
// Laws
// ---------------------------------------------------------------------------
/// A part of the stream is read back: the head up to the blank line announces exactly as many bytes
/// as the frame has, the frame follows, and behind it a line end and whatever comes next.
pub proof fn part_reads_back(jpeg: Seq<u8>, rest: Seq<u8>)
    ensures
        ({
            let (head, body, next) = read_message(viewfinder::part_bytes(jpeg) + rest);
            &&& body == jpeg
            &&& next == seq![13u8, 10u8] + rest
            &&& text::stands_at(head, 0, "--evk4frame\r\n"@)
            &&& field(head + "\r\n"@, "Content-Type: "@) == "image/jpeg"@
        }),
{
    reveal_strlit("--");
    reveal_strlit("evk4frame");
    reveal_strlit("--evk4frame");
    reveal_strlit("--evk4frame\r\n");
    reveal_strlit("\r\n");
    reveal_strlit("\r\n\r\n");
    reveal_strlit("\r\nContent-Type: image/jpeg\r\nContent-Length: ");
    reveal_strlit("Content-Type: image/jpeg");
    reveal_strlit("Content-Type: ");
    reveal_strlit("image/jpeg");
    reveal_strlit("Content-Length: ");
    let d = text::dec(jpeg.len());
    digits_are_plain(jpeg.len());
    let one = "--evk4frame"@;
    let two = "Content-Type: image/jpeg"@;
    let three = "Content-Length: "@ + d;
    let written = viewfinder::part_head_text(jpeg.len());
    let s = viewfinder::part_bytes(jpeg) + rest;
    let tail = jpeg + seq![13u8, 10u8] + rest;
    assert(written =~= one + "\r\n"@ + (two + "\r\n"@ + (three + "\r\n\r\n"@)));
    assert(vstd::utf8::is_ascii_chars(written)) by {
        assert forall|i: int| 0 <= i < written.len() implies '\0' <= #[trigger] written[i]
            <= '\u{7f}' by {}
    }
    assert(s =~= vstd::utf8::encode_utf8(written) + tail);
    head_is_read(written, tail);
    let t = ascii_text(s);
    let last = three + "\r\n\r\n"@ + ascii_text(tail);
    let middle = two + "\r\n"@ + last;
    assert(t =~= one + "\r\n"@ + middle);
    blank_line_is_later(one, middle);
    blank_line_is_later(two, last);
    blank_line_is_here(three, ascii_text(tail));
    let end: int = one.len() + 2 + two.len() + 2 + three.len() as int;
    assert(text::first_at(t, 0, "\r\n\r\n"@) == end);

    announces_nothing(one);
    announces_nothing(two);
    word_is_later(one, middle, "Content-Length: "@);
    word_is_later(two, last, "Content-Length: "@);
    let after = d + "\r\n\r\n"@ + ascii_text(tail);
    assert(last =~= "Content-Length: "@ + after);
    word_is_here("Content-Length: "@, after);
    let before = one + "\r\n"@ + two + "\r\n"@ + "Content-Length: "@;
    assert(t =~= before + d + "\r\n"@ + ("\r\n"@ + ascii_text(tail)));
    line_ends_here(before, d, "\r\n"@ + ascii_text(tail));
    assert(text::between(t, 0, "Content-Length: "@, "\r\n"@) == d);
    assert(s.subrange(end + 4, end + 4 + jpeg.len()) =~= jpeg);
    assert(s.skip(end + 4 + jpeg.len()) =~= seq![13u8, 10u8] + rest);

    let head = t.take(end);
    assert(head =~= one + "\r\n"@ + two + "\r\n"@ + three);
    assert(text::stands_at(head, 0, "--evk4frame\r\n"@)) by {
        let w = "--evk4frame\r\n"@;
        assert forall|k: int| 0 <= k < w.len() implies #[trigger] head[0 + k] == w[k] by {}
    }
    let h = head + "\r\n"@;
    let h2 = two + "\r\n"@ + (three + "\r\n"@);
    assert(h =~= one + "\r\n"@ + h2);
    assert forall|k: int| !#[trigger] text::stands_at(one, k, "Content-Type: "@) by {
        if text::stands_at(one, k, "Content-Type: "@) {
            assert(one[k + 0] == "Content-Type: "@[0]);
        }
    }
    word_is_later(one, h2, "Content-Type: "@);
    let h3 = "image/jpeg"@ + "\r\n"@ + (three + "\r\n"@);
    assert(h2 =~= "Content-Type: "@ + h3);
    word_is_here("Content-Type: "@, h3);
    let front = one + "\r\n"@ + "Content-Type: "@;
    assert(h =~= front + "image/jpeg"@ + "\r\n"@ + (three + "\r\n"@));
    line_ends_here(front, "image/jpeg"@, three + "\r\n"@);
}

/// The lines of the head of a response.
spec fn response_lines(status: u16, status_text: Seq<char>, content_type: Seq<char>, n: nat) -> (
    Seq<char>,
    Seq<char>,
    Seq<char>,
) {
    (
        "HTTP/1.1 "@ + text::dec(status as nat) + " "@ + status_text,
        "Content-Type: "@ + content_type,
        "Content-Length: "@ + text::dec(n),
    )
}

/// What stands behind the length in the head of every response.
spec fn fixed_lines() -> Seq<char> {
    "Cache-Control: no-cache\r\nAccess-Control-Allow-Origin: *"@
}

proof fn response_head_is_lines(
    status: u16,
    status_text: Seq<char>,
    content_type: Seq<char>,
    n: nat,
)
    requires
        is_plain(status_text),
        is_plain(content_type),
    ensures
        ({
            let (one, two, three) = response_lines(status, status_text, content_type, n);
            let head = http::response_head(status, status_text, content_type, n);
            &&& head == one + "\r\n"@ + (two + "\r\n"@ + (three + "\r\n"@ + (fixed_lines()
                + "\r\n\r\n"@)))
            &&& vstd::utf8::is_ascii_chars(head)
            &&& is_plain(one)
            &&& no_char(two, '\r')
            &&& no_char(three, '\r')
            &&& one.len() > 0 && one[0] == 'H'
            &&& two.len() > 0 && two[0] == 'C'
            &&& three.len() > 0 && three[0] == 'C'
            &&& forall|i: int| 13 <= i < two.len() ==> #[trigger] two[i] != ':'
        }),
{
    reveal_strlit("HTTP/1.1 ");
    reveal_strlit(" ");
    reveal_strlit("\r\n");
    reveal_strlit("\r\n\r\n");
    reveal_strlit("\r\nContent-Type: ");
    reveal_strlit("Content-Type: ");
    reveal_strlit("\r\nContent-Length: ");
    reveal_strlit("Content-Length: ");
    reveal_strlit("\r\nCache-Control: no-cache\r\nAccess-Control-Allow-Origin: *\r\n\r\n");
    reveal_strlit("Cache-Control: no-cache\r\nAccess-Control-Allow-Origin: *");
    digits_are_plain(status as nat);
    digits_are_plain(n);
    let (one, two, three) = response_lines(status, status_text, content_type, n);
    let head = http::response_head(status, status_text, content_type, n);
    assert(head =~= one + "\r\n"@ + (two + "\r\n"@ + (three + "\r\n"@ + (fixed_lines()
        + "\r\n\r\n"@))));
    assert forall|i: int| 0 <= i < head.len() implies '\0' <= #[trigger] head[i] <= '\u{7f}' by {}
}

proof fn blank_line_of_response(three: Seq<char>, tail: Seq<char>)
    requires
        no_char(three, '\r'),
    ensures
        text::first_at(
            three + "\r\n"@ + (fixed_lines() + "\r\n\r\n"@ + tail),
            0,
            "\r\n\r\n"@,
        ) == three.len() + 2 + fixed_lines().len(),
{
    reveal_strlit("\r\n");
    reveal_strlit("\r\n\r\n");
    reveal_strlit("Cache-Control: no-cache");
    reveal_strlit("Access-Control-Allow-Origin: *");
    reveal_strlit("Cache-Control: no-cache\r\nAccess-Control-Allow-Origin: *");
    let four = "Cache-Control: no-cache"@;
    let five = "Access-Control-Allow-Origin: *"@;
    let rest = fixed_lines() + "\r\n\r\n"@ + tail;
    assert(rest =~= four + "\r\n"@ + (five + "\r\n\r\n"@ + tail));
    blank_line_is_later(three, rest);
    blank_line_is_later(four, five + "\r\n\r\n"@ + tail);
    blank_line_is_here(five, tail);
}

/// A response is read back: its head announces exactly as many bytes as the body has, and the body
/// follows the blank line, with nothing between it and what comes next.
pub proof fn response_reads_back(
    status: u16,
    status_text: Seq<char>,
    content_type: Seq<char>,
    body: Seq<u8>,
    rest: Seq<u8>,
)
    requires
        is_plain(status_text),
        is_plain(content_type),
    ensures
        ({
            let (head, read, next) = read_message(
                http::response_bytes(status, status_text, content_type, body) + rest,
            );
            &&& read == body
            &&& next == rest
            &&& head + "\r\n\r\n"@ == http::response_head(
                status,
                status_text,
                content_type,
                body.len(),
            )
        }),
{
    reveal_strlit("\r\n");
    reveal_strlit("\r\n\r\n");
    reveal_strlit("Content-Length: ");
    let n = body.len();
    let d = text::dec(n);
    digits_are_plain(n);
    let (one, two, three) = response_lines(status, status_text, content_type, n);
    let written = http::response_head(status, status_text, content_type, n);
    response_head_is_lines(status, status_text, content_type, n);
    let s = http::response_bytes(status, status_text, content_type, body) + rest;
    let tail = body + rest;
    assert(s =~= vstd::utf8::encode_utf8(written) + tail);
    head_is_read(written, tail);
    let t = ascii_text(s);
    let a = ascii_text(tail);
    let last = three + "\r\n"@ + (fixed_lines() + "\r\n\r\n"@ + a);
    let middle = two + "\r\n"@ + last;
    assert(t =~= one + "\r\n"@ + middle);
    blank_line_is_later(one, middle);
    blank_line_is_later(two, last);
    blank_line_of_response(three, a);
    let end: int = one.len() + 2 + two.len() + 2 + three.len() + 2 + fixed_lines().len() as int;
    assert(text::first_at(t, 0, "\r\n\r\n"@) == end);
    assert(written.len() == end + 4);

    announces_nothing(one);
    announces_nothing(two);
    word_is_later(one, middle, "Content-Length: "@);
    word_is_later(two, last, "Content-Length: "@);
    let after = d + "\r\n"@ + (fixed_lines() + "\r\n\r\n"@ + a);
    assert(last =~= "Content-Length: "@ + after);
    word_is_here("Content-Length: "@, after);
    let before = one + "\r\n"@ + two + "\r\n"@ + "Content-Length: "@;
    let behind = fixed_lines() + "\r\n\r\n"@ + a;
    assert(t =~= before + d + "\r\n"@ + behind);
    line_ends_here(before, d, behind);
    assert(text::between(t, 0, "Content-Length: "@, "\r\n"@) == d);
    assert(s.subrange(end + 4, end + 4 + n) =~= body);
    assert(s.skip(end + 4 + n) =~= rest);
    assert(t.take(end) + "\r\n\r\n"@ =~= written);
}

/// What follows a word on its line, where the lines before do not hold the word.
proof fn field_is(front: Seq<char>, word: Seq<char>, value: Seq<char>, rest: Seq<char>)
    requires
        no_char(value, '\r'),
        word.len() > 0,
        text::first_at(front + (word + (value + "\r\n"@ + rest)), 0, word) == front.len(),
    ensures
        field(front + (word + (value + "\r\n"@ + rest)), word) == value,
{
    let t = front + (word + (value + "\r\n"@ + rest));
    assert(t =~= front + word + value + "\r\n"@ + rest);
    line_ends_here(front + word, value, rest);
}

proof fn status_is_told(digits: Seq<char>, status_text: Seq<char>)
    requires
        forall|i: int| 0 <= i < digits.len() ==> text::is_digit(#[trigger] digits[i]),
    ensures
        ({
            let line = digits + " "@ + status_text;
            let space = text::first_at(line, 0, " "@);
            &&& line.take(space) == digits
            &&& line.skip(space + 1) == status_text
        }),
{
    reveal_strlit(" ");
    let line = digits + " "@ + status_text;
    let n = digits.len() as int;
    assert forall|k: int| 0 <= k < n implies !#[trigger] text::stands_at(line, k, " "@) by {
        if text::stands_at(line, k, " "@) {
            assert(line[k + 0] == " "@[0]);
            assert(text::is_digit(digits[k]));
        }
    }
    assert(text::stands_at(line, n, " "@)) by {
        assert(line[n + 0] == ' ');
    }
    text::first_at_is(line, 0, " "@, n);
    assert(line.take(n) =~= digits);
    assert(line.skip(n + 1) =~= status_text);
}

/// The head of a response tells its status, in digits and in words.
pub proof fn response_head_tells_status(
    status: u16,
    status_text: Seq<char>,
    content_type: Seq<char>,
    n: nat,
)
    requires
        is_plain(status_text),
        is_plain(content_type),
    ensures
        ({
            let head = http::response_head(status, status_text, content_type, n);
            let line = field(head, "HTTP/1.1 "@);
            let space = text::first_at(line, 0, " "@);
            &&& head.take(9) == "HTTP/1.1 "@
            &&& text::digits_value(line.take(space)) == status
            &&& line.skip(space + 1) == status_text
        }),
{
    reveal_strlit("HTTP/1.1 ");
    reveal_strlit(" ");
    let (one, two, three) = response_lines(status, status_text, content_type, n);
    let head = http::response_head(status, status_text, content_type, n);
    response_head_is_lines(status, status_text, content_type, n);
    digits_are_plain(status as nat);
    text::dec_reads_back(status as nat);
    let d = text::dec(status as nat);
    let line = d + " "@ + status_text;
    let second = two + "\r\n"@ + (three + "\r\n"@ + (fixed_lines() + "\r\n\r\n"@));
    let w = "HTTP/1.1 "@;
    assert(one =~= w + line);
    assert(head =~= w + (line + "\r\n"@ + second));
    word_is_here(w, line + "\r\n"@ + second);
    let none = Seq::<char>::empty();
    assert(head =~= none + (w + (line + "\r\n"@ + second)));
    assert(no_char(line, '\r')) by {
        assert forall|i: int| 0 <= i < line.len() implies #[trigger] line[i] != '\r' by {
            assert(line[i] == one[i + 9]);
        }
    }
    field_is(none, w, line, second);
    assert(head.take(9) =~= w);
    status_is_told(d, status_text);
}

/// The head of a response tells the type of its content, forbids caching and allows every origin.
pub proof fn response_head_tells_content_type(
    status: u16,
    status_text: Seq<char>,
    content_type: Seq<char>,
    n: nat,
)
    requires
        is_plain(status_text),
        is_plain(content_type),
    ensures
        ({
            let head = http::response_head(status, status_text, content_type, n);
            &&& field(head, "Content-Type: "@) == content_type
            &&& head.skip(head.len() - 61)
                == "\r\nCache-Control: no-cache\r\nAccess-Control-Allow-Origin: *\r\n\r\n"@
        }),
{
    let (one, two, three) = response_lines(status, status_text, content_type, n);
    let head = http::response_head(status, status_text, content_type, n);
    response_head_is_lines(status, status_text, content_type, n);
    let third = three + "\r\n"@ + (fixed_lines() + "\r\n\r\n"@);
    let second = two + "\r\n"@ + third;
    let w = "Content-Type: "@;
    assert(head == one + "\r\n"@ + second);
    content_type_is_later(one, second);
    assert(second =~= w + (content_type + "\r\n"@ + third));
    content_type_is_here(content_type + "\r\n"@ + third);
    let front = one + "\r\n"@;
    assert(front.len() == one.len() + 2) by {
        reveal_strlit("\r\n");
    }
    field_is(front, w, content_type, third);
    assert(head.skip(head.len() - 61)
        == "\r\nCache-Control: no-cache\r\nAccess-Control-Allow-Origin: *\r\n\r\n"@) by {
        reveal_strlit("\r\nCache-Control: no-cache\r\nAccess-Control-Allow-Origin: *\r\n\r\n");
    }
}

proof fn content_type_is_here(rest: Seq<char>)
    ensures
        "Content-Type: "@.len() > 0,
        text::first_at("Content-Type: "@ + rest, 0, "Content-Type: "@) == 0,
{
    reveal_strlit("Content-Type: ");
    word_is_here("Content-Type: "@, rest);
}

proof fn content_type_is_later(line: Seq<char>, rest: Seq<char>)
    requires
        no_char(line, ':'),
    ensures
        text::first_at(line + "\r\n"@ + rest, 0, "Content-Type: "@) == line.len() + 2
            + text::first_at(rest, 0, "Content-Type: "@),
{
    reveal_strlit("Content-Type: ");
    let w = "Content-Type: "@;
    assert(w[12] == ':');
    assert forall|k: int| !#[trigger] text::stands_at(line, k, w) by {
        if text::stands_at(line, k, w) {
            assert(line[k + 12] == w[12]);
        }
    }
    word_is_later(line, rest, w);
}

} // verus!
