//! A minimal reading and writing of HTTP: enough to route a request, take in its body and answer
//! it.

use vstd::prelude::*;

use crate::bytes;
use crate::json;
use crate::text;

verus! {

// ---------------------------------------------------------------------------
// Scanning
// ---------------------------------------------------------------------------
/// What to look for in a text.
#[derive(Clone, Copy)]
pub enum Class {
    /// White space.
    White,
    /// Anything but white space.
    Visible,
    /// One character.
    Exactly(char),
}

/// The characters with the Unicode property `White_Space`.
pub open spec fn is_white(c: char) -> bool {
    let n = c as nat;
    ||| 0x9 <= n <= 0xd
    ||| n == 0x20
    ||| n == 0x85
    ||| n == 0xa0
    ||| n == 0x1680
    ||| 0x2000 <= n <= 0x200a
    ||| n == 0x2028
    ||| n == 0x2029
    ||| n == 0x202f
    ||| n == 0x205f
    ||| n == 0x3000
}

/// Whether a character is of a class.
pub open spec fn in_class(c: char, class: Class) -> bool {
    match class {
        Class::White => is_white(c),
        Class::Visible => !is_white(c),
        Class::Exactly(d) => c == d,
    }
}

/// The first position from `from` on that holds a character of the class, or the length of the
/// text where there is none.
pub open spec fn find(s: Seq<char>, from: int, class: Class) -> int
    decreases s.len() - from,
{
    if from >= s.len() {
        s.len() as int
    } else if in_class(s[from], class) {
        from
    } else {
        find(s, from + 1, class)
    }
}

/// `find` gives the position it is described by.
proof fn find_meaning(s: Seq<char>, from: int, class: Class)
    requires
        0 <= from <= s.len(),
    ensures
        from <= find(s, from, class) <= s.len(),
        forall|k: int| from <= k < find(s, from, class) ==> !in_class(#[trigger] s[k], class),
        find(s, from, class) < s.len() ==> in_class(s[find(s, from, class)], class),
    decreases s.len() - from,
{
    if from < s.len() && !in_class(s[from], class) {
        find_meaning(s, from + 1, class);
    }
}

/// The position that `find` gives is the only one of its description.
proof fn find_unique(s: Seq<char>, from: int, class: Class, at: int)
    requires
        0 <= from <= at <= s.len(),
        forall|k: int| from <= k < at ==> !in_class(#[trigger] s[k], class),
        at < s.len() ==> in_class(s[at], class),
    ensures
        find(s, from, class) == at,
    decreases at - from,
{
    if from < at {
        find_unique(s, from + 1, class, at);
    }
}

fn white(c: char) -> (r: bool)
    ensures
        r == is_white(c),
{
    let n: u32 = c as u32;
    (0x9 <= n && n <= 0xd) || n == 0x20 || n == 0x85 || n == 0xa0 || n == 0x1680 || (0x2000 <= n
        && n <= 0x200a) || n == 0x2028 || n == 0x2029 || n == 0x202f || n == 0x205f || n == 0x3000
}

fn of_class(c: char, class: Class) -> (r: bool)
    ensures
        r == in_class(c, class),
{
    match class {
        Class::White => white(c),
        Class::Visible => !white(c),
        Class::Exactly(d) => c == d,
    }
}

fn position(v: &Vec<char>, from: usize, class: Class) -> (at: usize)
    requires
        from <= v@.len(),
    ensures
        at == find(v@, from as int, class),
        from <= at <= v@.len(),
{
    proof {
        find_meaning(v@, from as int, class);
    }
    let mut i: usize = from;
    while i < v.len()
        invariant
            from <= i <= v@.len(),
            find(v@, from as int, class) == find(v@, i as int, class),
            i <= find(v@, from as int, class) <= v@.len(),
        decreases v@.len() - i,
    {
        if of_class(v[i], class) {
            return i;
        }
        proof {
            find_meaning(v@, i as int + 1, class);
        }
        i += 1;
    }
    i
}

// ---------------------------------------------------------------------------
// The request line
// ---------------------------------------------------------------------------
/// The first two words of a request line: the method, and the path without its query string.
/// There is no request where a word is missing.
pub open spec fn request_line(s: Seq<char>) -> Option<(Seq<char>, Seq<char>)> {
    let a = find(s, 0, Class::Visible);
    let b = find(s, a, Class::White);
    let c = find(s, b, Class::Visible);
    let d = find(s, c, Class::White);
    if c >= s.len() {
        None
    } else {
        let target = s.subrange(c, d);
        Some((s.subrange(a, b), target.take(find(target, 0, Class::Exactly('?')))))
    }
}

/// Splits a request line into method and path.
pub fn parse_request_line(line: &str) -> (r: Option<(String, String)>)
    ensures
        match (r, request_line(line@)) {
            (Some(p), Some(q)) => p.0@ == q.0 && p.1@ == q.1,
            (None, None) => true,
            _ => false,
        },
{
    let v = text::chars_of(line);
    let a = position(&v, 0, Class::Visible);
    let b = position(&v, a, Class::White);
    let c = position(&v, b, Class::Visible);
    let d = position(&v, c, Class::White);
    if c >= v.len() {
        return None;
    }
    let target = line.substring_char(c, d);
    let t = text::chars_of(target);
    let q = position(&t, 0, Class::Exactly('?'));
    let method = line.substring_char(a, b);
    let path = target.substring_char(0, q);
    assert(path@ =~= target@.take(q as int));
    Some((method.to_owned(), path.to_owned()))
}

/// A request line made of a method, a path with a query string, and whatever follows gives back
/// the method and the path. The method and the path are words, and the path has no `?` in it.
pub proof fn request_line_reads_back(
    method: Seq<char>,
    path: Seq<char>,
    query: Seq<char>,
    rest: Seq<char>,
)
    requires
        method.len() > 0,
        forall|k: int| 0 <= k < method.len() ==> !is_white(#[trigger] method[k]),
        path.len() > 0,
        forall|k: int| 0 <= k < path.len() ==> !is_white(#[trigger] path[k]) && path[k] != '?',
        forall|k: int| 0 <= k < query.len() ==> !is_white(#[trigger] query[k]),
    ensures
        request_line(method + seq![' '] + path + seq![' '] + rest) == Some((method, path)),
        request_line(method + seq![' '] + path + seq!['?'] + query + seq![' '] + rest) == Some(
            (method, path),
        ),
{
    let m = method.len() as int;
    let p = path.len() as int;
    let s = method + seq![' '] + path + seq![' '] + rest;
    assert(forall|k: int| 0 <= k < m ==> s[k] == method[k]);
    assert(forall|k: int| m + 1 <= k < m + 1 + p ==> s[k] == path[k - m - 1]);
    find_unique(s, 0, Class::Visible, 0);
    find_unique(s, 0, Class::White, m);
    find_unique(s, m, Class::Visible, m + 1);
    find_unique(s, m + 1, Class::White, m + 1 + p);
    assert(s.subrange(0, m) =~= method);
    let target = s.subrange(m + 1, m + 1 + p);
    assert(target =~= path);
    find_unique(target, 0, Class::Exactly('?'), p);
    assert(target.take(p) =~= path);

    let u = method + seq![' '] + path + seq!['?'] + query + seq![' '] + rest;
    let q = query.len() as int;
    assert(forall|k: int| 0 <= k < m ==> u[k] == method[k]);
    assert(forall|k: int| m + 1 <= k < m + 1 + p ==> u[k] == path[k - m - 1]);
    assert(u[m + 1 + p] == '?');
    assert(forall|k: int| m + p + 2 <= k < m + p + 2 + q ==> u[k] == query[k - m - p - 2]);
    find_unique(u, 0, Class::Visible, 0);
    find_unique(u, 0, Class::White, m);
    find_unique(u, m, Class::Visible, m + 1);
    assert forall|k: int| m + 1 <= k < m + p + 2 + q implies !is_white(#[trigger] u[k]) by {
        if k < m + 1 + p {
            assert(u[k] == path[k - m - 1]);
        } else if k > m + 1 + p {
            assert(u[k] == query[k - m - p - 2]);
        }
    }
    find_unique(u, m + 1, Class::White, m + p + 2 + q);
    assert(u.subrange(0, m) =~= method);
    let wide = u.subrange(m + 1, m + p + 2 + q);
    assert(forall|k: int| 0 <= k < p ==> wide[k] == path[k]);
    find_unique(wide, 0, Class::Exactly('?'), p);
    assert(wide.take(p) =~= path);
}

// ---------------------------------------------------------------------------
// Header lines
// ---------------------------------------------------------------------------
/// A text without the white space at its end.
pub open spec fn trim_end(s: Seq<char>) -> Seq<char>
    decreases s.len(),
{
    if s.len() > 0 && is_white(s.last()) {
        trim_end(s.drop_last())
    } else {
        s
    }
}

/// A text without the white space at its ends.
pub open spec fn trim(s: Seq<char>) -> Seq<char> {
    trim_end(s.skip(find(s, 0, Class::Visible)))
}

/// A text without one leading `+`.
pub open spec fn unsigned(s: Seq<char>) -> Seq<char> {
    if s.len() > 0 && s[0] == '+' {
        s.skip(1)
    } else {
        s
    }
}

/// The count that a text stands for: ASCII digits, at least one, with at most one `+` before them,
/// whose value fits.
pub open spec fn count_of(s: Seq<char>) -> Option<usize> {
    let d = unsigned(s);
    if d.len() > 0 && (forall|i: int| 0 <= i < d.len() ==> text::is_digit(#[trigger] d[i]))
        && text::digits_value(d) <= usize::MAX {
        Some(text::digits_value(d) as usize)
    } else {
        None
    }
}

/// An ASCII capital letter as its small letter, any other character as it is.
pub open spec fn ascii_lower(c: char) -> char {
    if 'A' <= c <= 'Z' {
        (c as nat + 32) as char
    } else {
        c
    }
}

/// Whether a line begins with `content-length:`, in capital or small letters.
pub open spec fn is_length_header(line: Seq<char>) -> bool {
    let name = "content-length:"@;
    &&& name.len() <= line.len()
    &&& forall|i: int| 0 <= i < name.len() ==> ascii_lower(#[trigger] line[i]) == name[i]
}

/// The part of a header line between its first colon, which ends the name, and the next one.
pub open spec fn length_field(line: Seq<char>) -> Seq<char> {
    let start = "content-length:"@.len() as int;
    line.subrange(start, find(line, start, Class::Exactly(':')))
}

/// Whether a line holds nothing but its line end.
pub open spec fn is_blank(line: Seq<char>) -> bool {
    forall|i: int| 0 <= i < line.len() ==> (#[trigger] line[i] == '\r' || line[i] == '\n')
}

/// What a line of the header means.
#[derive(Clone, Copy, Debug, PartialEq, Eq, Structural)]
pub enum HeaderLine {
    /// The header ends here.
    End,
    /// The length of the body; `None` where it is no number.
    Length(Option<usize>),
    /// Any other header, which does not matter.
    Other,
}

/// The meaning of a header line.
pub open spec fn header_line(line: Seq<char>) -> HeaderLine {
    if is_blank(line) {
        HeaderLine::End
    } else if is_length_header(line) {
        HeaderLine::Length(count_of(trim(length_field(line))))
    } else {
        HeaderLine::Other
    }
}

proof fn trim_end_meaning(s: Seq<char>, end: int)
    requires
        0 <= end <= s.len(),
        forall|k: int| end <= k < s.len() ==> is_white(#[trigger] s[k]),
        end > 0 ==> !is_white(s[end - 1]),
    ensures
        trim_end(s) == s.take(end),
    decreases s.len(),
{
    if end < s.len() {
        assert(is_white(s.last()));
        trim_end_meaning(s.drop_last(), end);
        assert(s.drop_last().take(end) =~= s.take(end));
    } else {
        assert(s.take(end) =~= s);
    }
}

/// Trims `v[from..to]`: gives the bounds of what is left.
fn trim_bounds(v: &Vec<char>, from: usize, to: usize) -> (r: (usize, usize))
    requires
        from <= to <= v@.len(),
    ensures
        from <= r.0 <= r.1 <= to,
        v@.subrange(r.0 as int, r.1 as int) == trim(v@.subrange(from as int, to as int)),
{
    let ghost s = v@.subrange(from as int, to as int);
    let mut a: usize = from;
    while a < to && white(v[a])
        invariant
            from <= a <= to <= v@.len(),
            forall|k: int| from <= k < a ==> is_white(#[trigger] v@[k]),
        decreases to - a,
    {
        a += 1;
    }
    let mut b: usize = to;
    while b > a && white(v[b - 1])
        invariant
            from <= a <= b <= to <= v@.len(),
            forall|k: int| b <= k < to ==> is_white(#[trigger] v@[k]),
        decreases b - a,
    {
        b -= 1;
    }
    proof {
        assert forall|k: int| 0 <= k < a - from implies !in_class(#[trigger] s[k], Class::Visible) by {
            assert(s[k] == v@[k + from]);
        }
        find_unique(s, 0, Class::Visible, a - from);
        let rest = s.skip(a - from);
        assert forall|k: int| b - a <= k < rest.len() implies is_white(#[trigger] rest[k]) by {
            assert(rest[k] == v@[k + a]);
        }
        trim_end_meaning(rest, b - a);
        assert(rest.take(b - a) =~= v@.subrange(a as int, b as int));
    }
    (a, b)
}

/// Reads `v[from..to]` as a count.
fn parse_count(v: &Vec<char>, from: usize, to: usize) -> (r: Option<usize>)
    requires
        from <= to <= v@.len(),
    ensures
        r == count_of(v@.subrange(from as int, to as int)),
{
    let ghost s = v@.subrange(from as int, to as int);
    let start: usize = if from < to && v[from] == '+' {
        from + 1
    } else {
        from
    };
    let ghost d = unsigned(s);
    assert(d =~= v@.subrange(start as int, to as int));
    if start == to {
        return None;
    }
    let mut value: usize = 0;
    let mut i: usize = start;
    while i < to
        invariant
            start <= i <= to <= v@.len(),
            d == v@.subrange(start as int, to as int),
            forall|k: int| 0 <= k < i - start ==> text::is_digit(#[trigger] d[k]),
            value == text::digits_value(d.take(i - start)),
            d == unsigned(s),
            s == v@.subrange(from as int, to as int),
        decreases to - i,
    {
        let c = v[i];
        assert(d[i - start] == c);
        if c < '0' || c > '9' {
            return None;
        }
        let digit: usize = (c as u32 - '0' as u32) as usize;
        let ghost next = d.take(i - start + 1);
        proof {
            assert(next.drop_last() =~= d.take(i - start));
            assert(text::digits_value(next) == 10 * value + digit);
            digits_value_grows(d, i - start + 1);
        }
        if value > (usize::MAX - digit) / 10 {
            assert(10 * value + digit > usize::MAX);
            return None;
        }
        value = 10 * value + digit;
        i += 1;
    }
    assert(d.take(i - start) =~= d);
    Some(value)
}

/// A longer run of digits stands for no smaller number.
proof fn digits_value_grows(d: Seq<char>, n: int)
    requires
        0 <= n <= d.len(),
    ensures
        text::digits_value(d.take(n)) <= text::digits_value(d),
    decreases d.len(),
{
    if n < d.len() {
        digits_value_grows(d.drop_last(), n);
        assert(d.drop_last().take(n) =~= d.take(n));
    } else {
        assert(d.take(n) =~= d);
    }
}

/// An ASCII capital letter as its small letter.
pub(crate) fn lower(c: char) -> (r: char)
    ensures
        r == ascii_lower(c),
{
    if 'A' <= c && c <= 'Z' {
        (c as u8 + 32) as char
    } else {
        c
    }
}

/// Classifies one line of the header.
pub fn parse_header_line(line: &str) -> (r: HeaderLine)
    ensures
        r == header_line(line@),
{
    let v = text::chars_of(line);
    let mut blank = true;
    let mut i: usize = 0;
    while i < v.len()
        invariant
            i <= v@.len(),
            blank == is_blank(v@.take(i as int)),
        decreases v@.len() - i,
    {
        let c = v[i];
        assert(v@.take(i + 1)[i as int] == c);
        assert forall|k: int| 0 <= k < i implies #[trigger] v@.take(i + 1)[k] == v@.take(i as int)[k] by {}
        if c != '\r' && c != '\n' {
            blank = false;
        }
        assert(blank == is_blank(v@.take(i + 1))) by {
            if is_blank(v@.take(i + 1)) {
                assert forall|k: int| 0 <= k < i implies (#[trigger] v@.take(i as int)[k] == '\r' || v@.take(i as int)[k] == '\n') by {
                    assert(v@.take(i + 1)[k] == v@.take(i as int)[k]);
                }
            }
        }
        i += 1;
    }
    assert(v@.take(i as int) =~= v@);
    if blank {
        return HeaderLine::End;
    }
    let name = text::chars_of("content-length:");
    if v.len() < name.len() {
        return HeaderLine::Other;
    }
    let mut k: usize = 0;
    while k < name.len()
        invariant
            k <= name@.len() <= v@.len(),
            v@ == line@,
            name@ == "content-length:"@,
            !is_blank(v@),
            forall|j: int| 0 <= j < k ==> ascii_lower(#[trigger] v@[j]) == name@[j],
        decreases name@.len() - k,
    {
        if lower(v[k]) != name[k] {
            return HeaderLine::Other;
        }
        k += 1;
    }
    let end = position(&v, k, Class::Exactly(':'));
    let (a, b) = trim_bounds(&v, k, end);
    HeaderLine::Length(parse_count(&v, a, b))
}

/// The length header that a response carries is read back as the length it was written for.
pub proof fn length_header_reads_back(n: usize)
    ensures
        header_line("Content-Length: "@ + text::dec(n as nat)) == HeaderLine::Length(Some(n)),
        header_line("Content-Length: "@ + text::dec(n as nat) + "\r\n"@) == HeaderLine::Length(
            Some(n),
        ),
{
    reveal_strlit("Content-Length: ");
    reveal_strlit("content-length:");
    reveal_strlit("\r\n");
    let d = text::dec(n as nat);
    text::dec_reads_back(n as nat);
    let line = "Content-Length: "@ + d;
    let ended = line + "\r\n"@;
    length_header_value(line, d, seq![]);
    length_header_value(ended, d, "\r\n"@);
}

proof fn length_header_value(line: Seq<char>, d: Seq<char>, tail: Seq<char>)
    requires
        line == "Content-Length: "@ + d + tail,
        d.len() > 0,
        forall|i: int| 0 <= i < d.len() ==> text::is_digit(#[trigger] d[i]),
        forall|i: int| 0 <= i < tail.len() ==> is_white(#[trigger] tail[i]),
    ensures
        header_line(line) == HeaderLine::Length(count_of(d)),
{
    reveal_strlit("Content-Length: ");
    reveal_strlit("content-length:");
    let n = d.len() as int;
    assert(line[0] == 'C');
    assert(forall|i: int| 0 <= i < n ==> line[16 + i] == d[i]);
    assert(forall|i: int| 0 <= i < tail.len() ==> line[16 + n + i] == tail[i]);
    assert(is_length_header(line));
    assert forall|k: int| 15 <= k < line.len() implies !in_class(
        #[trigger] line[k],
        Class::Exactly(':'),
    ) by {
        if 16 <= k < 16 + n {
            assert(line[k] == d[k - 16]);
        } else if k >= 16 + n {
            assert(line[k] == tail[k - 16 - n]);
        }
    }
    find_unique(line, 15, Class::Exactly(':'), line.len() as int);
    let field = length_field(line);
    assert(field[0] == ' ');
    assert(field[1] == d[0]);
    find_unique(field, 0, Class::Visible, 1);
    let rest = field.skip(1);
    assert forall|k: int| n <= k < rest.len() implies is_white(#[trigger] rest[k]) by {
        assert(rest[k] == tail[k - n]);
    }
    assert(rest[n - 1] == d[n - 1]);
    trim_end_meaning(rest, n);
    assert(rest.take(n) =~= d);
}

// ---------------------------------------------------------------------------
// Reading a request
// ---------------------------------------------------------------------------
/// A request, as far as it matters for routing and for taking in its body.
#[derive(Debug)]
pub struct HttpRequest {
    pub method: String,
    pub path: String,
    pub body: Vec<u8>,
}

/// What to do with a request whose `Content-Length` is no number.
#[derive(Clone, Copy, Debug, PartialEq, Eq, Structural)]
pub enum BadLength {
    /// Drop the request.
    Drop,
    /// Take the body to be empty.
    Empty,
}

/// How far the head of a request has been read.
#[derive(Debug)]
pub enum RequestHead {
    /// Nothing is read yet: the request line comes next.
    Start,
    /// The request line is read: header lines come next.
    Headers { method: String, path: String, content_length: usize },
    /// The head is read: the body comes next.
    Complete { method: String, path: String, content_length: usize },
    /// The request is dropped without an answer.
    Dropped,
}

/// The mathematical counterpart of `RequestHead`.
pub enum HeadModel {
    Start,
    Headers { method: Seq<char>, path: Seq<char>, content_length: usize },
    Complete { method: Seq<char>, path: Seq<char>, content_length: usize },
    Dropped,
}

impl View for RequestHead {
    type V = HeadModel;

    open spec fn view(&self) -> HeadModel {
        match *self {
            RequestHead::Start => HeadModel::Start,
            RequestHead::Headers { method, path, content_length } => HeadModel::Headers {
                method: method@,
                path: path@,
                content_length,
            },
            RequestHead::Complete { method, path, content_length } => HeadModel::Complete {
                method: method@,
                path: path@,
                content_length,
            },
            RequestHead::Dropped => HeadModel::Dropped,
        }
    }
}

/// The head after one more line. The last `Content-Length` counts.
pub open spec fn head_after(policy: BadLength, head: HeadModel, line: Seq<char>) -> HeadModel {
    match head {
        HeadModel::Start => match request_line(line) {
            Some((method, path)) => HeadModel::Headers { method, path, content_length: 0 },
            None => HeadModel::Dropped,
        },
        HeadModel::Headers { method, path, content_length } => match header_line(line) {
            HeaderLine::End => HeadModel::Complete { method, path, content_length },
            HeaderLine::Other => HeadModel::Headers { method, path, content_length },
            HeaderLine::Length(Some(n)) => HeadModel::Headers { method, path, content_length: n },
            HeaderLine::Length(None) => if policy == BadLength::Drop {
                HeadModel::Dropped
            } else {
                HeadModel::Headers { method, path, content_length: 0 }
            },
        },
        _ => head,
    }
}

/// The head after a run of lines, read from the start.
pub open spec fn head_of(policy: BadLength, lines: Seq<Seq<char>>) -> HeadModel
    decreases lines.len(),
{
    if lines.len() == 0 {
        HeadModel::Start
    } else {
        head_after(policy, head_of(policy, lines.drop_last()), lines.last())
    }
}

impl RequestHead {
    /// Takes in one line of the head. At the end of the input the line is empty, which ends the
    /// header. A head that is complete or dropped stays so.
    pub fn feed(self, policy: BadLength, line: &str) -> (r: RequestHead)
        ensures
            r@ == head_after(policy, self@, line@),
    {
        match self {
            RequestHead::Start => match parse_request_line(line) {
                Some((method, path)) => RequestHead::Headers { method, path, content_length: 0 },
                None => RequestHead::Dropped,
            },
            RequestHead::Headers { method, path, content_length } => match parse_header_line(
                line,
            ) {
                HeaderLine::End => RequestHead::Complete { method, path, content_length },
                HeaderLine::Other => RequestHead::Headers { method, path, content_length },
                HeaderLine::Length(Some(n)) => RequestHead::Headers {
                    method,
                    path,
                    content_length: n,
                },
                HeaderLine::Length(None) => match policy {
                    BadLength::Drop => RequestHead::Dropped,
                    BadLength::Empty => RequestHead::Headers { method, path, content_length: 0 },
                },
            },
            other => other,
        }
    }

    /// Joins a complete head and its body to a request. There is none where the head is not
    /// complete or the body does not have the length that the head gives.
    pub fn finish(self, body: Vec<u8>) -> (r: Option<HttpRequest>)
        ensures
            match self@ {
                HeadModel::Complete { method, path, content_length } => if body@.len()
                    == content_length {
                    r matches Some(q) && q.method@ == method && q.path@ == path && q.body == body
                } else {
                    r is None
                },
                _ => r is None,
            },
    {
        match self {
            RequestHead::Complete { method, path, content_length } => {
                if body.len() == content_length {
                    Some(HttpRequest { method, path, body })
                } else {
                    None
                }
            },
            _ => None,
        }
    }
}

/// Reads the head of a request whose lines are all there.
pub fn parse_head(policy: BadLength, lines: &Vec<String>) -> (r: RequestHead)
    ensures
        r@ == head_of(policy, lines@.map_values(|l: String| l@)),
{
    let ghost all = lines@.map_values(|l: String| l@);
    let mut head = RequestHead::Start;
    let mut i: usize = 0;
    while i < lines.len()
        invariant
            i <= lines@.len(),
            all == lines@.map_values(|l: String| l@),
            head@ == head_of(policy, all.take(i as int)),
        decreases lines@.len() - i,
    {
        assert(all.take(i + 1).drop_last() =~= all.take(i as int));
        head = head.feed(policy, lines[i].as_str());
        i += 1;
    }
    assert(all.take(i as int) =~= all);
    head
}

/// Whether every length header among the lines after the request line gives a number.
pub open spec fn lengths_well_formed(lines: Seq<Seq<char>>) -> bool {
    forall|i: int|
        1 <= i < lines.len() ==> #[trigger] header_line(lines[i]) != HeaderLine::Length(None)
}

/// The two ways of dealing with a bad length differ only on requests that have one.
pub proof fn policies_agree(lines: Seq<Seq<char>>)
    requires
        lengths_well_formed(lines),
    ensures
        head_of(BadLength::Drop, lines) == head_of(BadLength::Empty, lines),
    decreases lines.len(),
{
    if lines.len() > 0 {
        let init = lines.drop_last();
        assert forall|i: int| 1 <= i < init.len() implies #[trigger] header_line(init[i])
            != HeaderLine::Length(None) by {
            assert(header_line(lines[i]) != HeaderLine::Length(None));
        }
        policies_agree(init);
        let k = lines.len() - 1;
        if k >= 1 {
            assert(header_line(lines[k]) != HeaderLine::Length(None));
        } else {
            assert(head_of(BadLength::Drop, init) == HeadModel::Start);
        }
    }
}

/// A head that is complete or dropped is not changed by further lines.
pub proof fn settled_head_stays(policy: BadLength, lines: Seq<Seq<char>>, more: Seq<Seq<char>>)
    requires
        head_of(policy, lines) is Complete || head_of(policy, lines) is Dropped,
    ensures
        head_of(policy, lines + more) == head_of(policy, lines),
    decreases more.len(),
{
    if more.len() == 0 {
        assert(lines + more =~= lines);
    } else {
        settled_head_stays(policy, lines, more.drop_last());
        assert((lines + more).drop_last() =~= lines + more.drop_last());
    }
}

// ---------------------------------------------------------------------------
// Responses
// ---------------------------------------------------------------------------
/// The head of a response that carries a body.
pub open spec fn response_head(
    status: u16,
    status_text: Seq<char>,
    content_type: Seq<char>,
    length: nat,
) -> Seq<char> {
    "HTTP/1.1 "@ + text::dec(status as nat) + " "@ + status_text + "\r\nContent-Type: "@
        + content_type + "\r\nContent-Length: "@ + text::dec(length)
        + "\r\nCache-Control: no-cache\r\nAccess-Control-Allow-Origin: *\r\n\r\n"@
}

/// A complete response: its head in UTF-8, then the body.
pub open spec fn response_bytes(
    status: u16,
    status_text: Seq<char>,
    content_type: Seq<char>,
    body: Seq<u8>,
) -> Seq<u8> {
    vstd::utf8::encode_utf8(response_head(status, status_text, content_type, body.len())) + body
}

/// A complete response with a JSON body.
pub open spec fn json_bytes(status: u16, status_text: Seq<char>, json: Seq<char>) -> Seq<u8> {
    response_bytes(status, status_text, "application/json"@, vstd::utf8::encode_utf8(json))
}

/// The JSON object of an error.
pub open spec fn error_text(reason: Seq<char>) -> Seq<char> {
    "{\"error\":"@ + json::json_quoted(reason) + "}"@
}

/// The answer to a CORS preflight request.
pub open spec fn preflight_text() -> Seq<char> {
    "HTTP/1.1 204 No Content\r\nAccess-Control-Allow-Origin: *\r\nAccess-Control-Allow-Methods: GET, PUT, OPTIONS\r\nAccess-Control-Allow-Headers: Content-Type\r\n\r\n"@
}

/// Builds a complete response.
pub fn write_response(status: u16, status_text: &str, content_type: &str, body: &[u8]) -> (r: Vec<
    u8,
>)
    ensures
        r@ == response_bytes(status, status_text@, content_type@, body@),
{
    let mut head: String = "HTTP/1.1 ".to_owned();
    head.append(text::decimal(status as u64).as_str());
    head.append(" ");
    head.append(status_text);
    head.append("\r\nContent-Type: ");
    head.append(content_type);
    head.append("\r\nContent-Length: ");
    head.append(text::decimal(body.len() as u64).as_str());
    head.append("\r\nCache-Control: no-cache\r\nAccess-Control-Allow-Origin: *\r\n\r\n");
    let mut r: Vec<u8> = Vec::new();
    bytes::append_bytes(&mut r, head.as_str().as_bytes());
    assert(r@ =~= vstd::utf8::encode_utf8(head@));
    bytes::append_bytes(&mut r, body);
    r
}

/// Builds a complete response with a JSON body.
pub fn json_response(status: u16, status_text: &str, json: &str) -> (r: Vec<u8>)
    ensures
        r@ == json_bytes(status, status_text@, json@),
{
    write_response(status, status_text, "application/json", json.as_bytes())
}

/// Builds a successful response with a JSON body.
pub fn json_ok(json: &str) -> (r: Vec<u8>)
    ensures
        r@ == json_bytes(200, "OK"@, json@),
{
    json_response(200, "OK", json)
}

/// Builds a response that reports an error as `{"error": reason}`.
pub fn json_err(status: u16, status_text: &str, reason: &str) -> (r: Vec<u8>)
    ensures
        r@ == json_bytes(status, status_text@, error_text(reason@)),
{
    let mut body: String = "{\"error\":".to_owned();
    body.append(json::json_string(reason).as_str());
    body.append("}");
    json_response(status, status_text, body.as_str())
}

/// Builds the answer to a CORS preflight request.
pub fn preflight_response() -> (r: Vec<u8>)
    ensures
        r@ == vstd::utf8::encode_utf8(preflight_text()),
{
    let head = "HTTP/1.1 204 No Content\r\nAccess-Control-Allow-Origin: *\r\nAccess-Control-Allow-Methods: GET, PUT, OPTIONS\r\nAccess-Control-Allow-Headers: Content-Type\r\n\r\n";
    vstd::slice::slice_to_vec(head.as_bytes())
}

// ---------------------------------------------------------------------------
// What a request says, character by character
// ---------------------------------------------------------------------------
/// The white space characters, one by one.
pub proof fn white_space_is(c: char)
    ensures
        is_white(c) <==> {
            ||| c == '\t' || c == '\n' || c == '\u{b}' || c == '\u{c}' || c == '\r' || c == ' '
            ||| c == '\u{85}' || c == '\u{a0}' || c == '\u{1680}'
            ||| c == '\u{2000}' || c == '\u{2001}' || c == '\u{2002}' || c == '\u{2003}'
            ||| c == '\u{2004}' || c == '\u{2005}' || c == '\u{2006}' || c == '\u{2007}'
            ||| c == '\u{2008}' || c == '\u{2009}' || c == '\u{200a}'
            ||| c == '\u{2028}' || c == '\u{2029}' || c == '\u{202f}' || c == '\u{205f}'
            ||| c == '\u{3000}'
        },
{
}

/// Whatever white space stands before, between and behind them, the first two words of a line are
/// the method and the target; the path is the target up to its first `?`.
pub proof fn first_two_words_are_read(
    lead: Seq<char>,
    method: Seq<char>,
    gap: Seq<char>,
    path: Seq<char>,
    query: Seq<char>,
    rest: Seq<char>,
)
    requires
        forall|k: int| 0 <= k < lead.len() ==> is_white(#[trigger] lead[k]),
        method.len() > 0,
        forall|k: int| 0 <= k < method.len() ==> !is_white(#[trigger] method[k]),
        gap.len() > 0,
        forall|k: int| 0 <= k < gap.len() ==> is_white(#[trigger] gap[k]),
        path.len() + query.len() > 0,
        forall|k: int| 0 <= k < path.len() ==> !is_white(#[trigger] path[k]) && path[k] != '?',
        query.len() > 0 ==> query[0] == '?',
        forall|k: int| 0 <= k < query.len() ==> !is_white(#[trigger] query[k]),
        rest.len() > 0 ==> is_white(rest[0]),
    ensures
        request_line(lead + method + gap + path + query + rest) == Some((method, path)),
{
    let s = lead + method + gap + path + query + rest;
    let a = lead.len() as int;
    let b = a + method.len();
    let c = b + gap.len();
    let e = c + path.len();
    let d = e + query.len();
    assert forall|k: int| 0 <= k < a implies !in_class(#[trigger] s[k], Class::Visible) by {
        assert(s[k] == lead[k]);
    }
    assert(s[a] == method[0]);
    find_unique(s, 0, Class::Visible, a);
    assert forall|k: int| a <= k < b implies !in_class(#[trigger] s[k], Class::White) by {
        assert(s[k] == method[k - a]);
    }
    assert(s[b] == gap[0]);
    find_unique(s, a, Class::White, b);
    assert forall|k: int| b <= k < c implies !in_class(#[trigger] s[k], Class::Visible) by {
        assert(s[k] == gap[k - b]);
    }
    assert forall|k: int| c <= k < d implies !in_class(#[trigger] s[k], Class::White) by {
        if k < e {
            assert(s[k] == path[k - c]);
        } else {
            assert(s[k] == query[k - e]);
        }
    }
    assert(!in_class(s[c], Class::White));
    find_unique(s, b, Class::Visible, c);
    if rest.len() > 0 {
        assert(s[d] == rest[0]);
    }
    find_unique(s, c, Class::White, d);
    assert(s.subrange(a, b) =~= method);
    let target = s.subrange(c, d);
    let n = path.len() as int;
    assert forall|k: int| 0 <= k < n implies !in_class(#[trigger] target[k], Class::Exactly('?')) by {
        assert(target[k] == path[k]);
    }
    if query.len() > 0 {
        assert(target[n] == query[0]);
    }
    find_unique(target, 0, Class::Exactly('?'), n);
    assert(target.take(n) =~= path);
}

/// A line with fewer than two words is no request line.
pub proof fn one_word_is_no_request(lead: Seq<char>, word: Seq<char>, tail: Seq<char>)
    requires
        forall|k: int| 0 <= k < lead.len() ==> is_white(#[trigger] lead[k]),
        forall|k: int| 0 <= k < word.len() ==> !is_white(#[trigger] word[k]),
        forall|k: int| 0 <= k < tail.len() ==> is_white(#[trigger] tail[k]),
    ensures
        request_line(lead + word + tail) is None,
{
    let s = lead + word + tail;
    let n = s.len() as int;
    let a = lead.len() as int;
    let b = a + word.len();
    assert forall|k: int| 0 <= k < a implies !in_class(#[trigger] s[k], Class::Visible) by {
        assert(s[k] == lead[k]);
    }
    assert forall|k: int| a <= k < b implies !in_class(#[trigger] s[k], Class::White) by {
        assert(s[k] == word[k - a]);
    }
    assert forall|k: int| b <= k < n implies !in_class(#[trigger] s[k], Class::Visible) by {
        assert(s[k] == tail[k - b]);
    }
    if word.len() > 0 {
        assert(s[a] == word[0]);
        find_unique(s, 0, Class::Visible, a);
        if b < n {
            assert(s[b] == tail[0]);
        }
        find_unique(s, a, Class::White, b);
        find_unique(s, b, Class::Visible, n);
    } else {
        find_unique(s, 0, Class::Visible, n);
        find_unique(s, n, Class::White, n);
        find_unique(s, n, Class::Visible, n);
    }
}

/// A text stands for a count where it is digits that read as the count, or such digits behind one
/// plus sign; every count of the machine can be given.
pub proof fn counts_are_digits(s: Seq<char>, n: usize)
    ensures
        count_of(s) == Some(n) <==> text::reads_as(s, n as nat) || (s.len() > 0 && s[0] == '+'
            && text::reads_as(s.skip(1), n as nat)),
        count_of(text::dec(n as nat)) == Some(n),
{
    text::dec_reads_back(n as nat);
    let m = text::dec(n as nat);
    assert(text::is_digit(m[0]));
    if count_of(s) == Some(n) {
        let d = unsigned(s);
        assert forall|i: int| 0 <= i < d.len() implies '0' <= #[trigger] d[i] <= '9' by {
            assert(text::is_digit(d[i]));
        }
    }
    if text::reads_as(s, n as nat) {
        assert('0' <= s[0] <= '9');
    }
}

/// A line that begins with the header's name, each letter of it capital or small, gives a length: the
/// count that stands in its value, whatever white space is around it, up to the next colon.
pub proof fn length_header_is_read(
    line: Seq<char>,
    lead: Seq<char>,
    value: Seq<char>,
    tail: Seq<char>,
    rest: Seq<char>,
)
    requires
        line.len() >= 15,
        forall|i: int|
            0 <= i < 15 ==> (#[trigger] line[i] == "content-length:"@[i] || line[i]
                == "CONTENT-LENGTH:"@[i]),
        line.skip(15) == lead + value + tail + rest,
        forall|i: int| 0 <= i < lead.len() ==> is_white(#[trigger] lead[i]),
        forall|i: int| 0 <= i < value.len() ==> #[trigger] value[i] != ':',
        value.len() > 0 ==> !is_white(value[0]) && !is_white(value.last()),
        forall|i: int| 0 <= i < tail.len() ==> is_white(#[trigger] tail[i]),
        rest.len() > 0 ==> rest[0] == ':',
    ensures
        header_line(line) == HeaderLine::Length(count_of(value)),
{
    reveal_strlit("content-length:");
    reveal_strlit("CONTENT-LENGTH:");
    assert(line[0] == 'c' || line[0] == 'C');
    assert(!is_blank(line));
    assert(is_length_header(line)) by {
        let name = "content-length:"@;
        assert forall|i: int| 0 <= i < name.len() implies ascii_lower(#[trigger] line[i])
            == name[i] by {
            assert(line[i] == name[i] || line[i] == "CONTENT-LENGTH:"@[i]);
        }
    }
    let shown = lead + value + tail;
    let behind = line.skip(15);
    let end = 15 + shown.len() as int;
    assert(line.len() == 15 + behind.len());
    assert(behind.len() == shown.len() + rest.len());
    assert forall|k: int| 15 <= k < end implies !in_class(
        #[trigger] line[k],
        Class::Exactly(':'),
    ) by {
        assert(line[k] == behind[k - 15]);
        let i = k - 15;
        if i < lead.len() {
            assert(behind[i] == lead[i]);
        } else if i < lead.len() + value.len() {
            assert(behind[i] == value[i - lead.len()]);
        } else {
            assert(behind[i] == tail[i - lead.len() - value.len()]);
        }
    }
    if rest.len() > 0 {
        assert(behind[shown.len() as int] == rest[0]);
        assert(line[end] == behind[shown.len() as int]);
    }
    find_unique(line, 15, Class::Exactly(':'), end);
    assert(length_field(line) =~= shown) by {
        assert forall|k: int| 0 <= k < shown.len() implies line[15 + k] == shown[k] by {
            assert(line[15 + k] == behind[k]);
        }
    }
    trim_is(lead, value, tail);
}

/// Trimming takes away the white space at both ends and nothing else.
pub proof fn trim_is(lead: Seq<char>, value: Seq<char>, tail: Seq<char>)
    requires
        forall|i: int| 0 <= i < lead.len() ==> is_white(#[trigger] lead[i]),
        value.len() > 0 ==> !is_white(value[0]) && !is_white(value.last()),
        forall|i: int| 0 <= i < tail.len() ==> is_white(#[trigger] tail[i]),
    ensures
        trim(lead + value + tail) == value,
{
    let s = lead + value + tail;
    let a = lead.len() as int;
    let n = value.len() as int;
    if n > 0 {
        assert forall|k: int| 0 <= k < a implies !in_class(#[trigger] s[k], Class::Visible) by {
            assert(s[k] == lead[k]);
        }
        assert(s[a] == value[0]);
        find_unique(s, 0, Class::Visible, a);
        let r = s.skip(a);
        assert forall|k: int| n <= k < r.len() implies is_white(#[trigger] r[k]) by {
            assert(r[k] == tail[k - n]);
        }
        assert(r[n - 1] == value.last());
        trim_end_meaning(r, n);
        assert(r.take(n) =~= value);
    } else {
        assert forall|k: int| 0 <= k < s.len() implies !in_class(
            #[trigger] s[k],
            Class::Visible,
        ) by {
            if k < a {
                assert(s[k] == lead[k]);
            } else {
                assert(s[k] == tail[k - a]);
            }
        }
        find_unique(s, 0, Class::Visible, s.len() as int);
        let r = s.skip(s.len() as int);
        trim_end_meaning(r, 0);
        assert(r.take(0) =~= value);
    }
}

/// A line of nothing but its line end ends the header; no other line does.
pub proof fn header_ends_at_blank_line(line: Seq<char>)
    ensures
        header_line(line) == HeaderLine::End <==> (forall|i: int|
            0 <= i < line.len() ==> (#[trigger] line[i] == '\r' || line[i] == '\n')),
{
}

/// A line that differs from the header's name in a letter, or is shorter, gives no length and,
/// unless it is blank, does not matter.
pub proof fn other_headers_do_not_matter(line: Seq<char>, at: int)
    requires
        !(forall|i: int|
            0 <= i < line.len() ==> (#[trigger] line[i] == '\r' || line[i] == '\n')),
        0 <= at < 15,
        at < line.len() ==> line[at] != "content-length:"@[at] && line[at]
            != "CONTENT-LENGTH:"@[at],
    ensures
        header_line(line) == HeaderLine::Other,
{
    reveal_strlit("content-length:");
    reveal_strlit("CONTENT-LENGTH:");
    if is_length_header(line) {
        let c = line[at];
        assert(ascii_lower(c) == "content-length:"@[at]);
        if 'A' <= c <= 'Z' {
            assert(c as nat + 32 == "content-length:"@[at] as nat);
            assert("content-length:"@[at] as nat >= 97);
            assert("CONTENT-LENGTH:"@[at] as nat + 32 == "content-length:"@[at] as nat);
        }
    }
}

/// The head of a request has the method and the path of its first line, and the length that its last
/// length header gives, or none; the blank line completes it.
pub proof fn head_is_told_by_its_lines(
    policy: BadLength,
    lines: Seq<Seq<char>>,
    method: Seq<char>,
    path: Seq<char>,
    last: int,
    n: usize,
    blank: Seq<char>,
)
    requires
        0 <= last < lines.len(),
        request_line(lines[0]) == Some((method, path)),
        last == 0 ==> n == 0,
        last > 0 ==> header_line(lines[last]) == HeaderLine::Length(Some(n)),
        forall|i: int|
            1 <= i < last ==> #[trigger] header_line(lines[i]) != HeaderLine::End && header_line(
                lines[i],
            ) != HeaderLine::Length(None),
        forall|i: int| last < i < lines.len() ==> #[trigger] header_line(lines[i])
            == HeaderLine::Other,
        header_line(blank) == HeaderLine::End,
    ensures
        head_of(policy, lines) == (HeadModel::Headers { method, path, content_length: n }),
        head_of(policy, lines.push(blank)) == (HeadModel::Complete {
            method,
            path,
            content_length: n,
        }),
{
    head_has_headers(policy, lines, method, path, last, n);
    assert(lines.push(blank).drop_last() =~= lines);
}

proof fn head_has_headers(
    policy: BadLength,
    lines: Seq<Seq<char>>,
    method: Seq<char>,
    path: Seq<char>,
    last: int,
    n: usize,
)
    requires
        0 <= last < lines.len(),
        request_line(lines[0]) == Some((method, path)),
        last == 0 ==> n == 0,
        last > 0 ==> header_line(lines[last]) == HeaderLine::Length(Some(n)),
        forall|i: int|
            1 <= i < last ==> #[trigger] header_line(lines[i]) != HeaderLine::End && header_line(
                lines[i],
            ) != HeaderLine::Length(None),
        forall|i: int| last < i < lines.len() ==> #[trigger] header_line(lines[i])
            == HeaderLine::Other,
    ensures
        head_of(policy, lines) == (HeadModel::Headers { method, path, content_length: n }),
    decreases lines.len(),
{
    let init = lines.drop_last();
    let k = lines.len() - 1;
    if k == 0 {
        assert(head_of(policy, init) == HeadModel::Start);
    } else if last < k {
        assert(header_line(lines[k]) == HeaderLine::Other);
        assert forall|i: int| last < i < init.len() implies #[trigger] header_line(init[i])
            == HeaderLine::Other by {
            assert(header_line(lines[i]) == HeaderLine::Other);
        }
        assert forall|i: int| 1 <= i < last implies #[trigger] header_line(init[i])
            != HeaderLine::End && header_line(init[i]) != HeaderLine::Length(None) by {
            assert(header_line(lines[i]) != HeaderLine::End);
        }
        head_has_headers(policy, init, method, path, last, n);
    } else {
        head_is_open(policy, init, method, path);
    }
}

proof fn head_is_open(
    policy: BadLength,
    lines: Seq<Seq<char>>,
    method: Seq<char>,
    path: Seq<char>,
)
    requires
        lines.len() > 0,
        request_line(lines[0]) == Some((method, path)),
        forall|i: int|
            1 <= i < lines.len() ==> #[trigger] header_line(lines[i]) != HeaderLine::End
                && header_line(lines[i]) != HeaderLine::Length(None),
    ensures
        head_of(policy, lines) matches HeadModel::Headers { method: m, path: p, .. } && m == method
            && p == path,
    decreases lines.len(),
{
    let init = lines.drop_last();
    let k = lines.len() - 1;
    if k == 0 {
        assert(head_of(policy, init) == HeadModel::Start);
    } else {
        assert forall|i: int| 1 <= i < init.len() implies #[trigger] header_line(init[i])
            != HeaderLine::End && header_line(init[i]) != HeaderLine::Length(None) by {
            assert(header_line(lines[i]) != HeaderLine::End);
        }
        head_is_open(policy, init, method, path);
        assert(header_line(lines[k]) != HeaderLine::End);
    }
}

/// A length that is no number drops the request under the one policy and means an empty body under
/// the other. A first line that is no request line drops the request.
pub proof fn bad_lines_are_dealt_with(
    policy: BadLength,
    line: Seq<char>,
    method: Seq<char>,
    path: Seq<char>,
    n: usize,
)
    ensures
        request_line(line) is None ==> head_of(policy, seq![line]) == HeadModel::Dropped,
        header_line(line) == HeaderLine::Length(None) ==> {
            let head = HeadModel::Headers { method, path, content_length: n };
            &&& head_after(BadLength::Drop, head, line) == HeadModel::Dropped
            &&& head_after(BadLength::Empty, head, line) == (HeadModel::Headers {
                method,
                path,
                content_length: 0,
            })
        },
{
    assert(seq![line].drop_last() =~= Seq::<Seq<char>>::empty());
    assert(head_of(policy, Seq::<Seq<char>>::empty()) == HeadModel::Start);
}

/// The head of a response names the status, the content type and the length, the numbers in digits,
/// and allows any origin.
pub proof fn response_head_is(
    status: u16,
    status_text: Seq<char>,
    content_type: Seq<char>,
    length: nat,
)
    ensures
        exists|code: Seq<char>, count: Seq<char>|
            #![trigger text::reads_as(code, status as nat), text::reads_as(count, length)]
            text::reads_as(code, status as nat) && text::reads_as(count, length) && response_head(
                status,
                status_text,
                content_type,
                length,
            ) == "HTTP/1.1 "@ + code + " "@ + status_text + "\r\nContent-Type: "@ + content_type
                + "\r\nContent-Length: "@ + count
                + "\r\nCache-Control: no-cache\r\nAccess-Control-Allow-Origin: *\r\n\r\n"@,
{
    text::dec_reads(status as nat);
    text::dec_reads(length);
}

/// A JSON response is a response whose body is the JSON text in UTF-8.
pub proof fn json_response_is(status: u16, status_text: Seq<char>, json: Seq<char>)
    ensures
        json_bytes(status, status_text, json) == response_bytes(
            status,
            status_text,
            "application/json"@,
            vstd::utf8::encode_utf8(json),
        ),
        vstd::utf8::decode_utf8(vstd::utf8::encode_utf8(json)) == json,
{
    vstd::utf8::encode_utf8_decode_utf8(json);
}

/// The error object has one member, the reason as a JSON string. A reason without quotes, backslashes
/// and control characters stands in it as it is.
pub proof fn error_tells_reason(reason: Seq<char>)
    ensures
        error_text(reason) == "{\"error\":"@ + json::json_quoted(reason) + "}"@,
        (forall|i: int|
            0 <= i < reason.len() ==> #[trigger] reason[i] != '"' && reason[i] != '\\'
                && reason[i] as nat >= 32) ==> error_text(reason) == "{\"error\":\""@ + reason
            + "\"}"@,
{
    reveal_strlit("{\"error\":\"");
    reveal_strlit("\"}");
    reveal_strlit("{\"error\":");
    reveal_strlit("}");
    if forall|i: int|
        0 <= i < reason.len() ==> #[trigger] reason[i] != '"' && reason[i] != '\\'
            && reason[i] as nat >= 32 {
        json::plain_text_is_only_quoted(reason);
        assert(error_text(reason) =~= "{\"error\":\""@ + reason + "\"}"@);
    }
}

} // verus!
