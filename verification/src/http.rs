//! The little of HTTP that the command server and its clients speak.

use vstd::prelude::*;

use crate::number::{parse_i64, parse_unsigned, u64_text};
use crate::text::{bytes_in, cat, cat3, cut, starts_with, to_ascii_lowercase, trim};
use crate::{number, text};

verus! {

// ---- heads -------------------------------------------------------------------------
/// The method and the path in the first line of a request, if it has both.
pub open spec fn request_of(line: Seq<char>) -> Option<(Seq<char>, Seq<char>)> {
    match text::cut_at(text::trimmed(line), ' ') {
        None => None,
        Some((method, rest)) => match text::cut_at(rest, ' ') {
            Some((path, version)) => Some((method, path)),
            None => Some((method, rest)),
        },
    }
}

/// Reads the method and the path in the first line of a request.
pub fn read_request_line<'a>(line: &'a str) -> (r: Option<(&'a str, &'a str)>)
    ensures
        r.deep_view() == request_of(line@),
{
    match cut(trim(line), ' ') {
        None => None,
        Some((method, rest)) => match cut(rest, ' ') {
            Some((path, _)) => Some((method, path)),
            None => Some((method, rest)),
        },
    }
}

/// What a line of a head says.
#[derive(Clone, Copy, PartialEq, Eq, Structural, Debug)]
pub enum HeaderLine {
    /// That the head is at its end.
    End,
    /// How many bytes the body has.
    ContentLength(usize),
    /// The id of the event that was received last.
    LastEventId(i64),
    /// Anything else.
    Other,
}

/// What a line of a head says. A blank line ends the head. The names of headers are read
/// without regard to case. A length that is not a number counts as zero, and an id that
/// is none is left out.
pub open spec fn header_line(line: Seq<char>) -> HeaderLine {
    let s = text::trimmed(line);
    let lower = text::ascii_lowercase(s);
    if s.len() == 0 {
        HeaderLine::End
    } else if text::begins_with(lower, "content-length:"@) {
        match number::unsigned_of(
            text::trimmed(s.skip("content-length:"@.len() as int)),
            usize::MAX as int,
        ) {
            Some(n) => HeaderLine::ContentLength(n as usize),
            None => HeaderLine::ContentLength(0),
        }
    } else if text::begins_with(lower, "last-event-id:"@) {
        match number::signed_of(text::trimmed(s.skip("last-event-id:"@.len() as int))) {
            Some(n) => HeaderLine::LastEventId(n as i64),
            None => HeaderLine::Other,
        }
    } else {
        HeaderLine::Other
    }
}

/// Reads a line of a head.
pub fn read_header(line: &str) -> (r: HeaderLine)
    ensures
        r == header_line(line@),
{
    let s: &str = trim(line);
    if s.is_empty() {
        return HeaderLine::End;
    }
    let lower: String = to_ascii_lowercase(s);
    let n: usize = s.unicode_len();
    if starts_with(lower.as_str(), "content-length:") {
        let skip: usize = "content-length:".unicode_len();
        let rest: &str = s.substring_char(skip, n);
        assert(rest@ =~= s@.skip(skip as int));
        return match parse_unsigned(trim(rest), usize::MAX as u64) {
            Some(v) => HeaderLine::ContentLength(v as usize),
            None => HeaderLine::ContentLength(0),
        };
    }
    if starts_with(lower.as_str(), "last-event-id:") {
        let skip: usize = "last-event-id:".unicode_len();
        let rest: &str = s.substring_char(skip, n);
        assert(rest@ =~= s@.skip(skip as int));
        return match parse_i64(trim(rest)) {
            Some(v) => HeaderLine::LastEventId(v),
            None => HeaderLine::Other,
        };
    }
    HeaderLine::Other
}

/// What the lines of a head say.
#[derive(Clone, Copy, PartialEq, Eq, Structural, Debug)]
pub struct Head {
    /// How many bytes the body has.
    pub content_length: usize,
    /// The id of the event that was received last, if it is given.
    pub last_event_id: Option<i64>,
    /// Whether the head is at its end.
    pub complete: bool,
}

impl Head {
    /// A head of which no line is read.
    pub open spec fn begun() -> Head {
        Head { content_length: 0, last_event_id: None, complete: false }
    }

    /// The head with one more line. What follows its end changes nothing; of two headers
    /// of one name the later one counts.
    pub open spec fn with(self, line: Seq<char>) -> Head {
        if self.complete {
            self
        } else {
            match header_line(line) {
                HeaderLine::End => Head { complete: true, ..self },
                HeaderLine::ContentLength(n) => Head { content_length: n, ..self },
                HeaderLine::LastEventId(n) => Head { last_event_id: Some(n), ..self },
                HeaderLine::Other => self,
            }
        }
    }

    /// A head of which no line is read.
    pub fn new() -> (r: Head)
        ensures
            r == Head::begun(),
    {
        Head { content_length: 0, last_event_id: None, complete: false }
    }

    /// Takes in one more line.
    pub fn read(&mut self, line: &str)
        ensures
            *final(self) == old(self).with(line@),
    {
        if !self.complete {
            match read_header(line) {
                HeaderLine::End => {
                    self.complete = true;
                },
                HeaderLine::ContentLength(n) => {
                    self.content_length = n;
                },
                HeaderLine::LastEventId(n) => {
                    self.last_event_id = Some(n);
                },
                HeaderLine::Other => {},
            }
        }
    }
}

/// What several lines of a head say.
pub open spec fn head_of(lines: Seq<Seq<char>>) -> Head
    decreases lines.len(),
{
    if lines.len() == 0 {
        Head::begun()
    } else {
        head_of(lines.drop_last()).with(lines.last())
    }
}

// ---- messages ----------------------------------------------------------------------
/// How many bytes a text has, in decimal digits.
pub open spec fn length_text(s: Seq<char>) -> Seq<char> {
    number::int_text(text::byte_len(s))
}

/// An answer with a JSON body.
pub open spec fn answer_200(body: Seq<char>) -> Seq<char> {
    "HTTP/1.1 200 OK\r\nContent-Type: application/json\r\nContent-Length: "@ + length_text(body)
        + "\r\n\r\n"@ + body
}

/// The answer for a path that there is not.
pub const NOT_FOUND: &'static str = "HTTP/1.1 404 Not Found\r\nContent-Length: 0\r\n\r\n";

/// A request that posts a JSON body.
pub open spec fn post_of(path: Seq<char>, body: Seq<char>) -> Seq<char> {
    "POST "@ + path
        + " HTTP/1.1\r\nHost: 127.0.0.1\r\nContent-Type: application/json\r\nContent-Length: "@
        + length_text(body) + "\r\nConnection: close\r\n\r\n"@ + body
}

fn length_of(s: &str) -> (r: String)
    ensures
        r@ == length_text(s@),
{
    let n: usize = bytes_in(s);
    u64_text(n as u64)
}

/// An answer with a JSON body.
pub fn respond_200(body: &str) -> (r: String)
    ensures
        r@ == answer_200(body@),
{
    let n: String = length_of(body);
    let mut r: String = cat(
        "HTTP/1.1 200 OK\r\nContent-Type: application/json\r\nContent-Length: ",
        n.as_str(),
    );
    r.append("\r\n\r\n");
    r.append(body);
    r
}

/// A request that posts a JSON body to a path.
pub fn post_request(path: &str, body: &str) -> (r: String)
    ensures
        r@ == post_of(path@, body@),
{
    let n: String = length_of(body);
    let mut r: String = cat3(
        "POST ",
        path,
        " HTTP/1.1\r\nHost: 127.0.0.1\r\nContent-Type: application/json\r\nContent-Length: ",
    );
    r.append(n.as_str());
    r.append("\r\nConnection: close\r\n\r\n");
    r.append(body);
    r
}

// ---- what holds of every message ---------------------------------------------------
/// The lines of the head of an answer, each with its end.
pub open spec fn answer_lines(body: Seq<char>) -> Seq<Seq<char>> {
    seq![
        "HTTP/1.1 200 OK\r\n"@,
        "Content-Type: application/json\r\n"@,
        "Content-Length: "@ + length_text(body) + "\r\n"@,
        "\r\n"@,
    ]
}

/// The lines of the head of a request that posts a body, each with its end.
pub open spec fn post_lines(path: Seq<char>, body: Seq<char>) -> Seq<Seq<char>> {
    seq![
        "POST "@ + path + " HTTP/1.1\r\n"@,
        "Host: 127.0.0.1\r\n"@,
        "Content-Type: application/json\r\n"@,
        "Content-Length: "@ + length_text(body) + "\r\n"@,
        "Connection: close\r\n"@,
        "\r\n"@,
    ]
}

pub(crate) proof fn lemma_trim_line(a: Seq<char>)
    requires
        a.len() > 0,
        !text::is_space(a[0]),
        !text::is_space(a.last()),
    ensures
        text::trimmed(a + "\r\n"@) == a,
{
    reveal_strlit("\r\n");
    let s = a + "\r\n"@;
    assert(s.drop_last() =~= a.push('\r'));
    assert(a.push('\r').drop_last() =~= a);
    assert(text::trimmed_start(s) == s);
    assert(text::trimmed_end(a) == a);
    assert(text::trimmed_end(a.push('\r')) == a);
    assert(text::trimmed_end(s) == a);
}

proof fn lemma_digits_bounds(n: int)
    requires
        n >= 0,
    ensures
        number::int_text(n).len() > 0,
        forall|i: int|
            0 <= i < number::int_text(n).len() ==> number::is_digit(
                #[trigger] number::int_text(n)[i],
            ),
    decreases n,
{
    let s = number::nat_text(n as nat);
    if n >= 10 {
        lemma_digits_bounds(n / 10);
        let head = number::nat_text((n / 10) as nat);
        assert(number::int_text(n / 10) == head);
        assert forall|i: int| 0 <= i < s.len() implies number::is_digit(#[trigger] s[i]) by {
            if i < head.len() {
                assert(s[i] == head[i]);
            }
        }
    }
}

/// The line of a head that gives the length of a body is read as that length.
pub proof fn length_line_reads_back(body: Seq<char>)
    requires
        text::byte_len(body) <= usize::MAX,
    ensures
        header_line("Content-Length: "@ + length_text(body) + "\r\n"@)
            == HeaderLine::ContentLength(text::byte_len(body) as usize),
{
    reveal_strlit("Content-Length: ");
    reveal_strlit("content-length:");
    let n = text::byte_len(body);
    let digits = number::int_text(n);
    lemma_digits_bounds(n);
    number::number_text_reads_back(0, n as u64);
    let name = "Content-Length: "@;
    let s = name + digits;
    assert(name[0] == 'C');
    assert(s.last() == digits.last());
    lemma_trim_line(s);
    assert(name + digits + "\r\n"@ =~= s + "\r\n"@);
    let lower = text::ascii_lowercase(s);
    assert(lower.take("content-length:"@.len() as int) =~= "content-length:"@);
    let rest = s.skip("content-length:"@.len() as int);
    assert(rest =~= seq![' '] + digits);
    assert(rest.skip(1) =~= digits);
    assert(text::trimmed_start(digits) == digits);
    assert(text::trimmed_start(rest) == digits);
    assert(text::trimmed_end(digits) == digits);
    assert(digits[0] != '+');
}

/// The line of a head that says which event was received last is read as its id.
pub proof fn last_id_line_reads_back(id: i64)
    ensures
        header_line("Last-Event-ID: "@ + number::int_text(id as int) + "\r\n"@)
            == HeaderLine::LastEventId(id),
{
    reveal_strlit("Last-Event-ID: ");
    reveal_strlit("content-length:");
    reveal_strlit("last-event-id:");
    let digits = number::int_text(id as int);
    if id < 0 {
        lemma_digits_bounds(-id as int);
        assert(digits[0] == '-');
        assert(digits.last() == number::int_text(-id as int).last());
    } else {
        lemma_digits_bounds(id as int);
    }
    number::number_text_reads_back(id, 0);
    let name = "Last-Event-ID: "@;
    let s = name + digits;
    assert(name[0] == 'L');
    assert(s.last() == digits.last());
    lemma_trim_line(s);
    assert(name + digits + "\r\n"@ =~= s + "\r\n"@);
    let lower = text::ascii_lowercase(s);
    assert(lower.take("content-length:"@.len() as int)[0] != "content-length:"@[0]);
    assert(lower.take("last-event-id:"@.len() as int) =~= "last-event-id:"@);
    let rest = s.skip("last-event-id:"@.len() as int);
    assert(rest =~= seq![' '] + digits);
    assert(rest.skip(1) =~= digits);
    assert(text::trimmed_start(digits) == digits);
    assert(text::trimmed_start(rest) == digits);
    assert(text::trimmed_end(digits) == digits);
}

/// Whoever reads an answer of the server line by line learns how long its body is, and the
/// body is what follows: nothing of it is lost.
pub proof fn answer_reads_back(body: Seq<char>)
    requires
        text::byte_len(body) <= usize::MAX,
    ensures
        answer_200(body) == text::joined(answer_lines(body), Seq::empty()) + body,
        head_of(answer_lines(body)) == (Head {
            content_length: text::byte_len(body) as usize,
            last_event_id: None,
            complete: true,
        }),
{
    let l = answer_lines(body);
    lemma_join4(l);
    reveal_strlit("HTTP/1.1 200 OK\r\nContent-Type: application/json\r\nContent-Length: ");
    reveal_strlit("HTTP/1.1 200 OK\r\n");
    reveal_strlit("Content-Type: application/json\r\n");
    reveal_strlit("Content-Length: ");
    reveal_strlit("\r\n\r\n");
    reveal_strlit("\r\n");
    assert("HTTP/1.1 200 OK\r\nContent-Type: application/json\r\nContent-Length: "@ =~= l[0] + l[1]
        + "Content-Length: "@);
    assert("\r\n\r\n"@ =~= "\r\n"@ + "\r\n"@);
    assert(answer_200(body) =~= l[0] + l[1] + l[2] + l[3] + body);
    lemma_plain_lines();
    length_line_reads_back(body);
    assert(l.drop_last() =~= seq![l[0], l[1], l[2]]);
    assert(l.drop_last().drop_last() =~= seq![l[0], l[1]]);
    assert(l.drop_last().drop_last().drop_last() =~= seq![l[0]]);
    assert(l.drop_last().drop_last().drop_last().drop_last() =~= Seq::empty());
    reveal_with_fuel(head_of, 5);
}

pub(crate) proof fn lemma_join4(l: Seq<Seq<char>>)
    requires
        l.len() == 4,
    ensures
        text::joined(l, Seq::empty()) == l[0] + l[1] + l[2] + l[3],
{
    let e = Seq::<char>::empty();
    reveal_with_fuel(text::joined, 4);
    assert(l.drop_last().drop_last().drop_last()[0] == l[0]);
    assert(text::joined(l, e) =~= l[0] + l[1] + l[2] + l[3]);
}

pub(crate) proof fn lemma_plain_lines()
    ensures
        header_line("HTTP/1.1 200 OK\r\n"@) == HeaderLine::Other,
        header_line("Content-Type: application/json\r\n"@) == HeaderLine::Other,
        header_line("\r\n"@) == HeaderLine::End,
{
    reveal_strlit("HTTP/1.1 200 OK\r\n");
    reveal_strlit("HTTP/1.1 200 OK");
    reveal_strlit("Content-Type: application/json\r\n");
    reveal_strlit("Content-Type: application/json");
    reveal_strlit("\r\n");
    reveal_strlit("content-length:");
    reveal_strlit("last-event-id:");
    let a = "HTTP/1.1 200 OK"@;
    assert("HTTP/1.1 200 OK\r\n"@ =~= a + "\r\n"@);
    assert(a[0] == 'H' && a.last() == 'K');
    lemma_trim_line(a);
    assert(text::ascii_lowercase(a)[0] == 'h');
    assert(text::ascii_lowercase(a).take("content-length:"@.len() as int)[0] != "content-length:"@[0]);
    assert(text::ascii_lowercase(a).take("last-event-id:"@.len() as int)[0] != "last-event-id:"@[0]);
    let b = "Content-Type: application/json"@;
    assert("Content-Type: application/json\r\n"@ =~= b + "\r\n"@);
    assert(b[0] == 'C' && b.last() == 'n' && b[8] == 'T');
    lemma_trim_line(b);
    assert(text::ascii_lowercase(b)[8] == 't');
    assert("content-length:"@[8] == 'l');
    assert(text::ascii_lowercase(b).take("content-length:"@.len() as int)[8] != "content-length:"@[8]);
    assert(text::ascii_lowercase(b)[0] == 'c');
    assert(text::ascii_lowercase(b).take("last-event-id:"@.len() as int)[0] != "last-event-id:"@[0]);
    let c = "\r\n"@;
    assert(c.skip(1) =~= seq!['\n']);
    assert(seq!['\n'].skip(1) =~= Seq::<char>::empty());
    reveal_with_fuel(text::trimmed_start, 3);
    assert(text::trimmed_start(c) == Seq::<char>::empty());
}

/// Whoever reads a request that posts a body line by line learns the method, the path and
/// how long the body is, and the body is what follows.
pub proof fn post_reads_back(path: Seq<char>, body: Seq<char>)
    requires
        !path.contains(' '),
        text::byte_len(body) <= usize::MAX,
    ensures
        post_of(path, body) == text::joined(post_lines(path, body), Seq::empty()) + body,
        request_of(post_lines(path, body)[0]) == Some(("POST"@, path)),
        head_of(post_lines(path, body).skip(1)) == (Head {
            content_length: text::byte_len(body) as usize,
            last_event_id: None,
            complete: true,
        }),
{
    let l = post_lines(path, body);
    lemma_join6(l);
    lemma_post_parts(path, body);
    lemma_post_line(path);
    lemma_plain_lines();
    lemma_plain_post_lines();
    length_line_reads_back(body);
    let h = l.skip(1);
    assert(h.drop_last() =~= seq![l[1], l[2], l[3], l[4]]);
    assert(h.drop_last().drop_last() =~= seq![l[1], l[2], l[3]]);
    assert(h.drop_last().drop_last().drop_last() =~= seq![l[1], l[2]]);
    assert(h.drop_last().drop_last().drop_last().drop_last() =~= seq![l[1]]);
    assert(h.drop_last().drop_last().drop_last().drop_last().drop_last() =~= Seq::empty());
    reveal_with_fuel(head_of, 6);
}

proof fn lemma_join6(l: Seq<Seq<char>>)
    requires
        l.len() == 6,
    ensures
        text::joined(l, Seq::empty()) == l[0] + l[1] + l[2] + l[3] + l[4] + l[5],
{
    let e = Seq::<char>::empty();
    let four = l.drop_last().drop_last();
    lemma_join4(four);
    assert(text::joined(l.drop_last(), e) =~= text::joined(four, e) + l[4]);
    assert(text::joined(l, e) =~= text::joined(l.drop_last(), e) + l[5]);
}

proof fn lemma_post_parts(path: Seq<char>, body: Seq<char>)
    ensures
        ({
            let l = post_lines(path, body);
            post_of(path, body) == l[0] + l[1] + l[2] + l[3] + l[4] + l[5] + body
        }),
{
    let l = post_lines(path, body);
    reveal_strlit(
        " HTTP/1.1\r\nHost: 127.0.0.1\r\nContent-Type: application/json\r\nContent-Length: ",
    );
    reveal_strlit(" HTTP/1.1\r\n");
    reveal_strlit("Host: 127.0.0.1\r\n");
    reveal_strlit("Content-Type: application/json\r\n");
    reveal_strlit("Content-Length: ");
    reveal_strlit("\r\nConnection: close\r\n\r\n");
    reveal_strlit("Connection: close\r\n");
    reveal_strlit("\r\n");
    assert(" HTTP/1.1\r\nHost: 127.0.0.1\r\nContent-Type: application/json\r\nContent-Length: "@
        =~= " HTTP/1.1\r\n"@ + l[1] + l[2] + "Content-Length: "@);
    assert("\r\nConnection: close\r\n\r\n"@ =~= "\r\n"@ + l[4] + l[5]);
    assert(post_of(path, body) =~= l[0] + l[1] + l[2] + l[3] + l[4] + l[5] + body);
}

proof fn lemma_post_line(path: Seq<char>)
    requires
        !path.contains(' '),
    ensures
        request_of("POST "@ + path + " HTTP/1.1\r\n"@) == Some(("POST"@, path)),
{
    reveal_strlit("POST ");
    reveal_strlit("POST");
    reveal_strlit(" HTTP/1.1\r\n");
    reveal_strlit(" HTTP/1.1");
    reveal_strlit("\r\n");
    let s = "POST "@ + path + " HTTP/1.1"@;
    assert("POST "@ + path + " HTTP/1.1\r\n"@ =~= s + "\r\n"@);
    assert(s[0] == 'P' && s.last() == '1');
    lemma_trim_line(s);
    let rest = path + " HTTP/1.1"@;
    assert(s[4] == ' ');
    text::lemma_place_of(s, ' ', 4);
    assert(s.take(4) =~= "POST"@);
    assert(s.skip(5) =~= rest);
    let n = path.len() as int;
    assert forall|k: int| 0 <= k < n implies #[trigger] rest[k] != ' ' by {
        assert(path.contains(path[k]));
    }
    assert(rest[n] == ' ');
    text::lemma_place_of(rest, ' ', n);
    assert(rest.take(n) =~= path);
}

pub(crate) proof fn lemma_plain_post_lines()
    ensures
        header_line("Host: 127.0.0.1\r\n"@) == HeaderLine::Other,
        header_line("Connection: close\r\n"@) == HeaderLine::Other,
{
    reveal_strlit("Host: 127.0.0.1\r\n");
    reveal_strlit("Host: 127.0.0.1");
    reveal_strlit("Connection: close\r\n");
    reveal_strlit("Connection: close");
    reveal_strlit("\r\n");
    reveal_strlit("content-length:");
    reveal_strlit("last-event-id:");
    let a = "Host: 127.0.0.1"@;
    assert("Host: 127.0.0.1\r\n"@ =~= a + "\r\n"@);
    assert(a[0] == 'H' && a.last() == '1');
    lemma_trim_line(a);
    assert(text::ascii_lowercase(a)[0] == 'h');
    assert(text::ascii_lowercase(a).take("content-length:"@.len() as int)[0] != "content-length:"@[0]);
    assert(text::ascii_lowercase(a).take("last-event-id:"@.len() as int)[0] != "last-event-id:"@[0]);
    let b = "Connection: close"@;
    assert("Connection: close\r\n"@ =~= b + "\r\n"@);
    assert(b[0] == 'C' && b.last() == 'e' && b[3] == 'n');
    lemma_trim_line(b);
    assert(text::ascii_lowercase(b)[3] == 'n');
    assert("content-length:"@[3] == 't');
    assert(text::ascii_lowercase(b).take("content-length:"@.len() as int)[3] != "content-length:"@[3]);
    assert(text::ascii_lowercase(b)[0] == 'c');
    assert(text::ascii_lowercase(b).take("last-event-id:"@.len() as int)[0] != "last-event-id:"@[0]);
}

} // verus!
