//! The request parser: turns the text of one request into its method,
//! target, header lines, cookie values and body lines. It never fails.
use vstd::prelude::*;

use crate::text::{
    back_spaces, chars_of, leading_space, lemma_span_exact, lines_of, skip_spaces, skip_word, span,
    split_lines, text_between, trim, views, word_len,
};

verus! {

/// `c` equals the lower-case ASCII letter `lower` up to ASCII case.
pub open spec fn same_letter(c: char, lower: char) -> bool {
    c == lower || c as u32 == lower as u32 - 32
}

/// The line starts with `Cookie:`, the letters in any case.
pub open spec fn is_cookie(l: Seq<char>) -> bool {
    &&& l.len() >= 7
    &&& same_letter(l[0], 'c')
    &&& same_letter(l[1], 'o')
    &&& same_letter(l[2], 'o')
    &&& same_letter(l[3], 'k')
    &&& same_letter(l[4], 'i')
    &&& same_letter(l[5], 'e')
    &&& l[6] == ':'
}

/// The value of a cookie line: what follows the colon, trimmed.
pub open spec fn cookie_value(l: Seq<char>) -> Seq<char> {
    trim(l.skip(7))
}

/// Method and target of a request line: its first two whitespace-separated
/// words, or two empty strings where it has fewer than two.
pub open spec fn request_line(l: Seq<char>) -> (Seq<char>, Seq<char>) {
    let a = leading_space(l);
    let b = a + word_len(l.skip(a as int));
    let c = b + leading_space(l.skip(b as int));
    let d = c + word_len(l.skip(c as int));
    if d > c {
        (l.subrange(a as int, b as int), l.subrange(c as int, d as int))
    } else {
        (seq![], seq![])
    }
}

/// Method and target of a request, read from its first line.
pub open spec fn first_line_parts(ls: Seq<Seq<char>>) -> (Seq<char>, Seq<char>) {
    if ls.len() == 0 {
        (seq![], seq![])
    } else {
        request_line(ls[0])
    }
}

/// Holds of a line that is not empty.
pub open spec fn nonempty_pred() -> spec_fn(Seq<char>) -> bool {
    |l: Seq<char>| l.len() > 0
}

/// Index of the first empty line, or the number of lines.
pub open spec fn blank_index(ls: Seq<Seq<char>>) -> nat {
    span(ls, nonempty_pred())
}

/// The lines that are not cookie lines, in order.
pub open spec fn header_lines(ls: Seq<Seq<char>>) -> Seq<Seq<char>>
    decreases ls.len(),
{
    if ls.len() == 0 {
        seq![]
    } else if is_cookie(ls.last()) {
        header_lines(ls.drop_last())
    } else {
        header_lines(ls.drop_last()).push(ls.last())
    }
}

/// The values of the cookie lines, in order.
pub open spec fn cookie_values(ls: Seq<Seq<char>>) -> Seq<Seq<char>>
    decreases ls.len(),
{
    if ls.len() == 0 {
        seq![]
    } else if is_cookie(ls.last()) {
        cookie_values(ls.drop_last()).push(cookie_value(ls.last()))
    } else {
        cookie_values(ls.drop_last())
    }
}

/// Header lines of the lines after the request line: those before the
/// first empty line, without the cookie lines.
pub open spec fn content_headers(ls: Seq<Seq<char>>) -> Seq<Seq<char>> {
    header_lines(ls.take(blank_index(ls) as int))
}

/// Cookie values of the lines after the request line.
pub open spec fn content_cookies(ls: Seq<Seq<char>>) -> Seq<Seq<char>> {
    cookie_values(ls.take(blank_index(ls) as int))
}

/// Body of the lines after the request line: every line after the first
/// empty one, empty ones included.
pub open spec fn content_body(ls: Seq<Seq<char>>) -> Seq<Seq<char>> {
    if blank_index(ls) < ls.len() {
        ls.skip(blank_index(ls) as int + 1)
    } else {
        seq![]
    }
}

/// The lines after the request line.
pub open spec fn after_first(ls: Seq<Seq<char>>) -> Seq<Seq<char>> {
    if ls.len() > 0 {
        ls.drop_first()
    } else {
        seq![]
    }
}

/// The method that parsing `s` yields.
pub open spec fn method_of(s: Seq<char>) -> Seq<char> {
    first_line_parts(lines_of(s)).0
}

/// The target that parsing `s` yields.
pub open spec fn target_of(s: Seq<char>) -> Seq<char> {
    first_line_parts(lines_of(s)).1
}

/// The header lines that parsing `s` yields.
pub open spec fn headers_of(s: Seq<char>) -> Seq<Seq<char>> {
    content_headers(after_first(lines_of(s)))
}

/// The cookie values that parsing `s` yields.
pub open spec fn cookies_of(s: Seq<char>) -> Seq<Seq<char>> {
    content_cookies(after_first(lines_of(s)))
}

/// The body lines that parsing `s` yields.
pub open spec fn body_of(s: Seq<char>) -> Seq<Seq<char>> {
    content_body(after_first(lines_of(s)))
}

/// Each line followed by a newline.
pub open spec fn joined_lines(v: Seq<Seq<char>>) -> Seq<char>
    decreases v.len(),
{
    if v.len() == 0 {
        seq![]
    } else {
        joined_lines(v.drop_last()) + v.last() + "\n"@
    }
}

/// A titled block of lines, or nothing where there are no lines.
pub open spec fn section(title: Seq<char>, v: Seq<Seq<char>>) -> Seq<char> {
    if v.len() == 0 {
        seq![]
    } else {
        "\n"@ + title + "\n"@ + joined_lines(v)
    }
}

/// The readable report of a request: its request line where both method
/// and target are present, then its headers, cookies and body, each block
/// under a title and only where it is not empty.
pub open spec fn report_text(
    method: Seq<char>,
    url: Seq<char>,
    headers: Seq<Seq<char>>,
    cookies: Seq<Seq<char>>,
    body: Seq<Seq<char>>,
) -> Seq<char> {
    (if method.len() > 0 && url.len() > 0 {
        "\n"@ + method + " "@ + url + "\n\n"@
    } else {
        seq![]
    }) + section("HEADERS:"@, headers) + section("COOKIES:"@, cookies) + section("BODY:"@, body)
}

/// The text that `String::from_utf8_lossy` makes of some bytes.
pub uninterp spec fn lossy_text(b: Seq<u8>) -> Seq<char>;

/// Relies on `String::from_utf8_lossy`: valid UTF-8 is decoded as it is,
/// and in any other input each invalid sequence becomes U+FFFD; it never fails.
#[verifier::external_body]
pub(crate) fn decode_lossy(raw: &[u8]) -> (r: String)
    ensures
        r@ == lossy_text(raw@),
        vstd::utf8::valid_utf8(raw@) ==> r@ == vstd::utf8::decode_utf8(raw@),
{
    String::from_utf8_lossy(raw).into_owned()
}

/// One parsed request.
pub struct HttpRequest {
    pub method: String,
    pub url: String,
    pub headers: Vec<String>,
    pub cookies: Vec<String>,
    pub body: Vec<String>,
}

fn same_letter_char(c: char, lower: char) -> (r: bool)
    requires
        'a' <= lower <= 'z',
    ensures
        r == same_letter(c, lower),
{
    c == lower || c as u32 == lower as u32 - 32
}

fn is_cookie_line(v: &Vec<char>) -> (r: bool)
    ensures
        r == is_cookie(v@),
{
    v.len() >= 7 && same_letter_char(v[0], 'c') && same_letter_char(v[1], 'o')
        && same_letter_char(v[2], 'o') && same_letter_char(v[3], 'k') && same_letter_char(
        v[4],
        'i',
    ) && same_letter_char(v[5], 'e') && v[6] == ':'
}

fn append_section(out: &mut String, title: &str, v: &Vec<String>)
    ensures
        final(out)@ == old(out)@ + section(title@, views(v@)),
{
    if v.len() == 0 {
        assert(old(out)@ + section(title@, views(v@)) =~= old(out)@);
        return;
    }
    out.append("\n");
    out.append(title);
    out.append("\n");
    let ghost start = out@;
    let mut i: usize = 0;
    assert(views(v@).take(0) =~= seq![]);
    assert(start + joined_lines(seq![]) =~= start);
    while i < v.len()
        invariant
            i <= v@.len(),
            out@ == start + joined_lines(views(v@).take(i as int)),
        decreases v@.len() - i,
    {
        out.append(v[i].as_str());
        out.append("\n");
        proof {
            let w = views(v@).take(i + 1);
            assert(w.drop_last() =~= views(v@).take(i as int));
            assert(w.last() == v@[i as int]@);
            assert(out@ =~= start + joined_lines(w));
        }
        i = i + 1;
    }
    assert(views(v@).take(v@.len() as int) =~= views(v@));
    assert(out@ =~= old(out)@ + section(title@, views(v@)));
}

impl HttpRequest {
    /// The readable report of this request.
    pub fn report(&self) -> (r: String)
        ensures
            r@ == report_text(
                self.method@,
                self.url@,
                views(self.headers@),
                views(self.cookies@),
                views(self.body@),
            ),
    {
        let mut out = String::new();
        if self.method.unicode_len() > 0 && self.url.unicode_len() > 0 {
            out.append("\n");
            out.append(self.method.as_str());
            out.append(" ");
            out.append(self.url.as_str());
            out.append("\n\n");
        }
        assert(out@ =~= (if self.method@.len() > 0 && self.url@.len() > 0 {
            "\n"@ + self.method@ + " "@ + self.url@ + "\n\n"@
        } else {
            seq![]
        }));
        append_section(&mut out, "HEADERS:", &self.headers);
        append_section(&mut out, "COOKIES:", &self.cookies);
        append_section(&mut out, "BODY:", &self.body);
        out
    }
    /// Parses the text of a request. Every input gives a value.
    pub fn parse(request: &str) -> (r: HttpRequest)
        ensures
            r.method@ == method_of(request@),
            r.url@ == target_of(request@),
            views(r.headers@) == headers_of(request@),
            views(r.cookies@) == cookies_of(request@),
            views(r.body@) == body_of(request@),
    {
        let lines = split_lines(request);
        let (method, url) = Self::parse_request_line(lines.as_slice());
        let first: usize = if lines.len() > 0 {
            1
        } else {
            0
        };
        let (_, rest) = lines.as_slice().split_at(first);
        assert(views(rest@) =~= after_first(views(lines@)));
        let (headers, cookies, body) = Self::parse_request_content(rest);
        HttpRequest { method, url, headers, cookies, body }
    }

    /// Parses raw request bytes, decoded as UTF-8 with each undecodable
    /// part replaced. Every input gives a value.
    pub fn parse_bytes(raw: &[u8]) -> (r: HttpRequest)
        ensures
            r.method@ == method_of(lossy_text(raw@)),
            r.url@ == target_of(lossy_text(raw@)),
            views(r.headers@) == headers_of(lossy_text(raw@)),
            views(r.cookies@) == cookies_of(lossy_text(raw@)),
            views(r.body@) == body_of(lossy_text(raw@)),
    {
        let text = decode_lossy(raw);
        Self::parse(text.as_str())
    }

    /// Method and target from the first of `lines`.
    pub fn parse_request_line(lines: &[String]) -> (r: (String, String))
        ensures
            (r.0@, r.1@) == first_line_parts(views(lines@)),
    {
        if lines.len() == 0 {
            return (String::new(), String::new());
        }
        let line = lines[0].as_str();
        let v = chars_of(line);
        let n = v.len();
        let a = skip_spaces(&v, 0, n);
        let b = skip_word(&v, a, n);
        let c = skip_spaces(&v, b, n);
        let d = skip_word(&v, c, n);
        proof {
            let l = v@;
            assert(l.subrange(0, n as int) =~= l);
            assert(l.subrange(a as int, n as int) =~= l.skip(a as int));
            assert(l.subrange(b as int, n as int) =~= l.skip(b as int));
            assert(l.subrange(c as int, n as int) =~= l.skip(c as int));
            assert(views(lines@)[0] == l);
        }
        if d > c {
            (text_between(line, a, b), text_between(line, c, d))
        } else {
            (String::new(), String::new())
        }
    }

    /// Header lines, cookie values and body lines of the lines that follow
    /// the request line.
    pub fn parse_request_content(lines: &[String]) -> (r: (Vec<String>, Vec<String>, Vec<String>))
        ensures
            views(r.0@) == content_headers(views(lines@)),
            views(r.1@) == content_cookies(views(lines@)),
            views(r.2@) == content_body(views(lines@)),
    {
        let ghost ls = views(lines@);
        let mut headers: Vec<String> = Vec::new();
        let mut cookies: Vec<String> = Vec::new();
        let mut body: Vec<String> = Vec::new();
        let mut reading_headers = true;
        let ghost mut blank: int = 0;
        let mut i: usize = 0;
        while i < lines.len()
            invariant
                ls == views(lines@),
                i <= lines@.len(),
                reading_headers ==> {
                    &&& forall|k: int| 0 <= k < i ==> (#[trigger] ls[k]).len() > 0
                    &&& views(headers@) == header_lines(ls.take(i as int))
                    &&& views(cookies@) == cookie_values(ls.take(i as int))
                    &&& body@.len() == 0
                },
                !reading_headers ==> {
                    &&& 0 <= blank < i
                    &&& blank == blank_index(ls)
                    &&& views(headers@) == header_lines(ls.take(blank))
                    &&& views(cookies@) == cookie_values(ls.take(blank))
                    &&& views(body@) == ls.subrange(blank + 1, i as int)
                },
            decreases lines@.len() - i,
        {
            let line = lines[i].as_str();
            let ghost l = line@;
            assert(ls[i as int] == l);
            if reading_headers {
                let v = chars_of(line);
                if v.len() == 0 {
                    reading_headers = false;
                    proof {
                        blank = i as int;
                        lemma_span_exact(ls, nonempty_pred(), blank);
                        assert(views(body@) =~= ls.subrange(blank + 1, i + 1));
                    }
                } else {
                    let ghost h = views(headers@);
                    let ghost c = views(cookies@);
                    assert(ls.take(i + 1).drop_last() =~= ls.take(i as int));
                    if is_cookie_line(&v) {
                        let n = v.len();
                        let a = skip_spaces(&v, 7, n);
                        let b = back_spaces(&v, a, n);
                        let value = text_between(line, a, b);
                        proof {
                            let t = l.skip(7);
                            assert(l.subrange(7, n as int) =~= t);
                            assert(l.subrange(a as int, n as int) =~= t.skip(leading_space(t) as int));
                            assert(value@ =~= cookie_value(l));
                        }
                        cookies.push(value);
                        assert(views(cookies@) =~= c.push(value@));
                    } else {
                        headers.push(line.to_owned());
                        assert(views(headers@) =~= h.push(l));
                    }
                }
            } else {
                let ghost bd = views(body@);
                body.push(line.to_owned());
                assert(views(body@) =~= bd.push(l));
                assert(views(body@) =~= ls.subrange(blank + 1, i + 1));
            }
            i = i + 1;
        }
        proof {
            if reading_headers {
                lemma_span_exact(ls, nonempty_pred(), ls.len() as int);
                assert(ls.take(ls.len() as int) =~= ls);
            } else {
                assert(ls.subrange(blank + 1, ls.len() as int) =~= ls.skip(blank + 1));
            }
        }
        (headers, cookies, body)
    }
}

/// Text without lines parses to an empty method and target and no headers,
/// cookies or body lines.
pub proof fn lemma_parse_empty(s: Seq<char>)
    requires
        s.len() == 0,
    ensures
        method_of(s).len() == 0,
        target_of(s).len() == 0,
        headers_of(s).len() == 0,
        cookies_of(s).len() == 0,
        body_of(s).len() == 0,
{
    let e: Seq<Seq<char>> = seq![];
    assert(lines_of(s) == e);
    assert(after_first(e) == e);
    lemma_span_exact(e, nonempty_pred(), 0);
    assert(e.take(0) =~= e);
}

} // verus!
