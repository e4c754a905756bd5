//! HTTP request and response values, and the building of request URLs.
//!
//! The transport itself lives outside the library; this module holds the
//! data exchanged with it and the logic that turns a high-level request
//! into the raw request a transport sends.
use vstd::prelude::*;
use vstd::utf8::{encode_utf8, valid_utf8};

use crate::text::{chars_of, contains, push_all, string_from_chars};
use crate::time::Duration;

verus! {

#[verifier::external_type_specification]
#[verifier::external_body]
pub struct ExJsonValue(serde_json::Value);

#[verifier::external_type_specification]
#[verifier::external_body]
pub struct ExUtf8Error(std::str::Utf8Error);

/// Raw HTTP request — the minimal input a transport needs.
#[derive(Clone, Debug)]
pub struct RawHttpRequest {
    pub method: HttpMethod,
    pub url: String,
    pub headers: Vec<(String, String)>,
    pub body: Vec<u8>,
}

/// Raw HTTP response — the minimal output a transport produces.
#[derive(Clone, Debug)]
pub struct RawHttpResponse {
    pub status: u16,
    pub body: Vec<u8>,
    pub headers: Vec<(String, String)>,
}

/// HTTP method.
#[derive(Clone, Copy, Debug, PartialEq, Eq, Structural)]
pub enum HttpMethod {
    Get,
    Post,
    Put,
    Delete,
}

/// The method's name on the wire.
pub open spec fn method_name(m: HttpMethod) -> Seq<char> {
    match m {
        HttpMethod::Get => "GET"@,
        HttpMethod::Post => "POST"@,
        HttpMethod::Put => "PUT"@,
        HttpMethod::Delete => "DELETE"@,
    }
}

impl HttpMethod {
    /// The method's name on the wire (`GET`, `POST`, `PUT`, `DELETE`).
    pub fn to_string(&self) -> (s: String)
        ensures
            s@ == method_name(*self),
    {
        match self {
            Self::Get => "GET".to_owned(),
            Self::Post => "POST".to_owned(),
            Self::Put => "PUT".to_owned(),
            Self::Delete => "DELETE".to_owned(),
        }
    }
}

/// An HTTP request ready to send.
#[derive(Clone, Debug)]
pub struct HttpRequest {
    pub method: HttpMethod,
    pub url: String,
    pub headers: Vec<(String, String)>,
    pub query: Vec<(String, String)>,
    pub body: Option<serde_json::Value>,
    pub timeout: Duration,
}

/// Pairs of strings taken by their characters.
pub open spec fn pairs_view(p: Seq<(String, String)>) -> Seq<(Seq<char>, Seq<char>)> {
    Seq::new(p.len(), |i: int| (p[i].0@, p[i].1@))
}

impl HttpRequest {
    pub fn new(method: HttpMethod, url: &str) -> (r: Self)
        ensures
            r.method == method,
            r.url@ == url@,
            r.headers@.len() == 0,
            r.query@.len() == 0,
            r.body is None,
            r.timeout@ == 30000,
    {
        Self {
            method,
            url: url.to_owned(),
            headers: Vec::new(),
            query: Vec::new(),
            body: None,
            timeout: Duration::from_secs(30),
        }
    }

    pub fn get(url: &str) -> (r: Self)
        ensures
            r.method == HttpMethod::Get,
            r.url@ == url@,
            r.headers@.len() == 0,
            r.query@.len() == 0,
            r.body is None,
            r.timeout@ == 30000,
    {
        Self::new(HttpMethod::Get, url)
    }

    pub fn post(url: &str) -> (r: Self)
        ensures
            r.method == HttpMethod::Post,
            r.url@ == url@,
            r.headers@.len() == 0,
            r.query@.len() == 0,
            r.body is None,
            r.timeout@ == 30000,
    {
        Self::new(HttpMethod::Post, url)
    }

    pub fn with_header(self, key: &str, value: &str) -> (r: Self)
        ensures
            pairs_view(r.headers@) == pairs_view(self.headers@).push((key@, value@)),
            r.method == self.method,
            r.url == self.url,
            r.query == self.query,
            r.body == self.body,
            r.timeout == self.timeout,
    {
        let mut r = self;
        let ghost old_headers = r.headers@;
        r.headers.push((key.to_owned(), value.to_owned()));
        assert(pairs_view(r.headers@) =~= pairs_view(old_headers).push((key@, value@)));
        r
    }

    pub fn with_query(self, key: &str, value: &str) -> (r: Self)
        ensures
            pairs_view(r.query@) == pairs_view(self.query@).push((key@, value@)),
            r.method == self.method,
            r.url == self.url,
            r.headers == self.headers,
            r.body == self.body,
            r.timeout == self.timeout,
    {
        let mut r = self;
        let ghost old_query = r.query@;
        r.query.push((key.to_owned(), value.to_owned()));
        assert(pairs_view(r.query@) =~= pairs_view(old_query).push((key@, value@)));
        r
    }

    pub fn with_body(self, body: serde_json::Value) -> (r: Self)
        ensures
            r.body == Some(body),
            r.method == self.method,
            r.url == self.url,
            r.headers == self.headers,
            r.query == self.query,
            r.timeout == self.timeout,
    {
        let mut r = self;
        r.body = Some(body);
        r
    }

    pub fn with_timeout(self, timeout: Duration) -> (r: Self)
        ensures
            r.timeout == timeout,
            r.method == self.method,
            r.url == self.url,
            r.headers == self.headers,
            r.query == self.query,
            r.body == self.body,
    {
        let mut r = self;
        r.timeout = timeout;
        r
    }
}

/// An HTTP response.
#[derive(Clone, Debug)]
pub struct HttpResponse {
    pub status: u16,
    pub body: Vec<u8>,
    pub headers: Vec<(String, String)>,
}

/// `std::str::from_utf8`: the bytes read as text when they are valid UTF-8
/// (the text's UTF-8 encoding is then the bytes), the decoding error otherwise,
/// as the standard library documents it.
#[verifier::external_body]
pub(crate) fn str_from_utf8(b: &[u8]) -> (r: Result<&str, std::str::Utf8Error>)
    ensures
        r is Ok <==> valid_utf8(b@),
        r matches Ok(s) ==> encode_utf8(s@) == b@,
{
    std::str::from_utf8(b)
}

impl HttpResponse {
    /// Get the response body as a string.
    pub fn text(&self) -> (r: Result<&str, std::str::Utf8Error>)
        ensures
            r is Ok <==> valid_utf8(self.body@),
            r matches Ok(s) ==> encode_utf8(s@) == self.body@,
    {
        str_from_utf8(self.body.as_slice())
    }

    /// Returns true if the status code is in the 2xx range.
    pub fn is_success(&self) -> (b: bool)
        ensures
            b == (200 <= self.status < 300),
    {
        self.status >= 200 && self.status < 300
    }
}

/// High-level HTTP client parameterised over a transport backend.
#[derive(Clone, Debug)]
pub struct HttpClient<B> {
    backend: B,
}

impl<B> HttpClient<B> {
    /// The backend the client sends through.
    pub closed spec fn backend_spec(&self) -> B {
        self.backend
    }

    /// Create a new client with the given backend.
    pub fn new(backend: B) -> (c: Self)
        ensures
            c.backend_spec() == backend,
    {
        Self { backend }
    }

    /// Access the underlying backend.
    pub fn backend(&self) -> (b: &B)
        ensures
            *b == self.backend_spec(),
    {
        &self.backend
    }
}

// ── URL building ──────────────────────────────────────────────────────────────

/// The two hex digits that escape `c` in a query component, for the
/// characters that are escaped.
pub open spec fn escape_of(c: char) -> Option<(char, char)> {
    if c == ' ' { Some(('2', '0')) }
    else if c == '!' { Some(('2', '1')) }
    else if c == '"' { Some(('2', '2')) }
    else if c == '#' { Some(('2', '3')) }
    else if c == '$' { Some(('2', '4')) }
    else if c == '%' { Some(('2', '5')) }
    else if c == '&' { Some(('2', '6')) }
    else if c == '\'' { Some(('2', '7')) }
    else if c == '(' { Some(('2', '8')) }
    else if c == ')' { Some(('2', '9')) }
    else if c == '*' { Some(('2', 'A')) }
    else if c == '+' { Some(('2', 'B')) }
    else if c == ',' { Some(('2', 'C')) }
    else if c == '/' { Some(('2', 'F')) }
    else if c == ':' { Some(('3', 'A')) }
    else if c == ';' { Some(('3', 'B')) }
    else if c == '<' { Some(('3', 'C')) }
    else if c == '=' { Some(('3', 'D')) }
    else if c == '>' { Some(('3', 'E')) }
    else if c == '?' { Some(('3', 'F')) }
    else if c == '@' { Some(('4', '0')) }
    else if c == '[' { Some(('5', 'B')) }
    else if c == '\\' { Some(('5', 'C')) }
    else if c == ']' { Some(('5', 'D')) }
    else if c == '^' { Some(('5', 'E')) }
    else if c == '`' { Some(('6', '0')) }
    else if c == '{' { Some(('7', 'B')) }
    else if c == '|' { Some(('7', 'C')) }
    else if c == '}' { Some(('7', 'D')) }
    else if c == '~' { Some(('7', 'E')) }
    else { None }
}

/// One character as it appears in an encoded query component.
pub open spec fn encode_char(c: char) -> Seq<char> {
    match escape_of(c) {
        Some((h, l)) => seq!['%', h, l],
        None => seq![c],
    }
}

/// A query component with each reserved character replaced by its `%XX` escape.
pub open spec fn url_encoded(s: Seq<char>) -> Seq<char>
    decreases s.len(),
{
    if s.len() == 0 {
        Seq::<char>::empty()
    } else {
        url_encoded(s.drop_last()) + encode_char(s.last())
    }
}

/// One `key=value` query parameter, both sides encoded.
pub open spec fn query_param(p: (Seq<char>, Seq<char>)) -> Seq<char> {
    url_encoded(p.0) + seq!['='] + url_encoded(p.1)
}

/// The query parameters joined by `&`.
pub open spec fn query_string(q: Seq<(Seq<char>, Seq<char>)>) -> Seq<char>
    decreases q.len(),
{
    if q.len() == 0 {
        Seq::<char>::empty()
    } else if q.len() == 1 {
        query_param(q[0])
    } else {
        query_string(q.drop_last()) + seq!['&'] + query_param(q.last())
    }
}

/// The full URL: `base` alone without parameters; otherwise `base`, then `&`
/// when `base` already holds a `?` and `?` when it does not, then the parameters.
pub open spec fn full_url(base: Seq<char>, q: Seq<(Seq<char>, Seq<char>)>) -> Seq<char> {
    if q.len() == 0 {
        base
    } else {
        base + (if crate::text::contains_seq(base, seq!['?']) { seq!['&'] } else { seq!['?'] }) + query_string(q)
    }
}

/// The characters a query component escapes: the space and
/// ``!"#$%&'()*+,/:;<=>?@[\]^`{|}~``.
pub open spec fn is_reserved(c: char) -> bool {
    " !\"#$%&'()*+,/:;<=>?@[\\]^`{|}~"@.contains(c)
}

/// The uppercase hexadecimal digit for `d` (`d < 16`).
pub open spec fn hex_digit(d: nat) -> char {
    if d < 10 {
        (d + 48) as char
    } else {
        (d + 55) as char
    }
}

/// The value of a hexadecimal digit, in either case.
pub open spec fn hex_value(c: char) -> Option<nat> {
    if '0' <= c && c <= '9' {
        Some((c as int - 48) as nat)
    } else if 'A' <= c && c <= 'F' {
        Some((c as int - 55) as nat)
    } else if 'a' <= c && c <= 'f' {
        Some((c as int - 87) as nat)
    } else {
        None
    }
}

/// A query component as a server reads it back: `%` and two hexadecimal
/// digits stand for the character with that code, `+` for a space, and every
/// other character for itself.
pub open spec fn query_decoded(s: Seq<char>) -> Seq<char>
    decreases s.len(),
{
    if s.len() == 0 {
        Seq::<char>::empty()
    } else if s[0] == '%' && s.len() >= 3 && hex_value(s[1]) is Some && hex_value(s[2]) is Some {
        seq![((hex_value(s[1])->0 * 16 + hex_value(s[2])->0) as char)] + query_decoded(s.subrange(3, s.len() as int))
    } else if s[0] == '+' {
        seq![' '] + query_decoded(s.drop_first())
    } else {
        seq![s[0]] + query_decoded(s.drop_first())
    }
}

/// A character is escaped exactly when it is reserved, and then by `%` and the
/// two uppercase hexadecimal digits of its code.
proof fn lemma_escape_hex(c: char)
    ensures
        escape_of(c) is Some <==> is_reserved(c),
        escape_of(c) matches Some((h, l)) ==> h == hex_digit(c as nat / 16) && l == hex_digit(c as nat % 16),
{
    let r = " !\"#$%&'()*+,/:;<=>?@[\\]^`{|}~"@;
    reveal_strlit(" !\"#$%&'()*+,/:;<=>?@[\\]^`{|}~");
    if is_reserved(c) {
        let i = choose|i: int| 0 <= i < r.len() && r[i] == c;
        assert(escape_of(c) is Some);
    }
    if escape_of(c) is Some {
        if c == ' ' {
            assert(r[0] == c);
        } else if c == '!' {
            assert(r[1] == c);
        } else if c == '"' {
            assert(r[2] == c);
        } else if c == '#' {
            assert(r[3] == c);
        } else if c == '$' {
            assert(r[4] == c);
        } else if c == '%' {
            assert(r[5] == c);
        } else if c == '&' {
            assert(r[6] == c);
        } else if c == '\'' {
            assert(r[7] == c);
        } else if c == '(' {
            assert(r[8] == c);
        } else if c == ')' {
            assert(r[9] == c);
        } else if c == '*' {
            assert(r[10] == c);
        } else if c == '+' {
            assert(r[11] == c);
        } else if c == ',' {
            assert(r[12] == c);
        } else if c == '/' {
            assert(r[13] == c);
        } else if c == ':' {
            assert(r[14] == c);
        } else if c == ';' {
            assert(r[15] == c);
        } else if c == '<' {
            assert(r[16] == c);
        } else if c == '=' {
            assert(r[17] == c);
        } else if c == '>' {
            assert(r[18] == c);
        } else if c == '?' {
            assert(r[19] == c);
        } else if c == '@' {
            assert(r[20] == c);
        } else if c == '[' {
            assert(r[21] == c);
        } else if c == '\\' {
            assert(r[22] == c);
        } else if c == ']' {
            assert(r[23] == c);
        } else if c == '^' {
            assert(r[24] == c);
        } else if c == '`' {
            assert(r[25] == c);
        } else if c == '{' {
            assert(r[26] == c);
        } else if c == '|' {
            assert(r[27] == c);
        } else if c == '}' {
            assert(r[28] == c);
        } else if c == '~' {
            assert(r[29] == c);
        }
    }
}

/// Each reserved character is encoded as `%` and the two uppercase
/// hexadecimal digits of its code; every other character is kept.
pub proof fn law_reserved_escaped(c: char)
    ensures
        is_reserved(c) ==> url_encoded(seq![c]) == seq!['%', hex_digit(c as nat / 16), hex_digit(c as nat % 16)],
        !is_reserved(c) ==> url_encoded(seq![c]) == seq![c],
{
    lemma_escape_hex(c);
    lemma_encoded_single(c);
}

/// A single character is encoded as [`encode_char`] says.
proof fn lemma_encoded_single(c: char)
    ensures
        url_encoded(seq![c]) == encode_char(c),
{
    let e = Seq::<char>::empty();
    assert(seq![c].drop_last() =~= e);
    assert(seq![c].last() == c);
    assert(url_encoded(e) == e);
    assert(url_encoded(seq![c]) == url_encoded(e) + encode_char(c));
    assert(e + encode_char(c) =~= encode_char(c));
}

/// Encoding a concatenation encodes each part.
proof fn lemma_encoded_concat(a: Seq<char>, b: Seq<char>)
    ensures
        url_encoded(a + b) == url_encoded(a) + url_encoded(b),
    decreases b.len(),
{
    if b.len() == 0 {
        assert(a + b =~= a);
        assert(url_encoded(a) + url_encoded(b) =~= url_encoded(a));
    } else {
        lemma_encoded_concat(a, b.drop_last());
        assert((a + b).drop_last() =~= a + b.drop_last());
        assert((a + b).last() == b.last());
        assert(url_encoded(a) + url_encoded(b) =~= url_encoded(a) + url_encoded(b.drop_last()) + encode_char(b.last()));
    }
}

/// Decoding reads an encoded character back, whatever follows it.
proof fn lemma_decode_char(c: char, rest: Seq<char>)
    ensures
        query_decoded(encode_char(c) + rest) == seq![c] + query_decoded(rest),
{
    lemma_escape_hex(c);
    let x = encode_char(c) + rest;
    lemma_escape_hex('%');
    lemma_escape_hex('+');
    match escape_of(c) {
        Some((h, l)) => {
            let n = c as nat;
            assert(hex_value(h) == Some(n / 16));
            assert(hex_value(l) == Some(n % 16));
            assert(x.subrange(3, x.len() as int) =~= rest);
            assert(((n / 16 * 16 + n % 16) as char) == c);
        },
        None => {
            assert(x.drop_first() =~= rest);
        },
    }
}

/// Reading back an encoded query component gives the component: no character
/// is lost or changed, `+` included, which a server would otherwise read as a
/// space.
pub proof fn law_query_component_roundtrip(s: Seq<char>)
    ensures
        query_decoded(url_encoded(s)) == s,
    decreases s.len(),
{
    if s.len() > 0 {
        let rest = s.drop_first();
        assert(s =~= seq![s[0]] + rest);
        lemma_encoded_concat(seq![s[0]], rest);
        lemma_encoded_single(s[0]);
        lemma_decode_char(s[0], url_encoded(rest));
        law_query_component_roundtrip(rest);
    }
}

fn escape_exec(c: char) -> (r: Option<(char, char)>)
    ensures
        r == escape_of(c),
{
    match c {
        ' ' => Some(('2', '0')),
        '!' => Some(('2', '1')),
        '"' => Some(('2', '2')),
        '#' => Some(('2', '3')),
        '$' => Some(('2', '4')),
        '%' => Some(('2', '5')),
        '&' => Some(('2', '6')),
        '\'' => Some(('2', '7')),
        '(' => Some(('2', '8')),
        ')' => Some(('2', '9')),
        '*' => Some(('2', 'A')),
        '+' => Some(('2', 'B')),
        ',' => Some(('2', 'C')),
        '/' => Some(('2', 'F')),
        ':' => Some(('3', 'A')),
        ';' => Some(('3', 'B')),
        '<' => Some(('3', 'C')),
        '=' => Some(('3', 'D')),
        '>' => Some(('3', 'E')),
        '?' => Some(('3', 'F')),
        '@' => Some(('4', '0')),
        '[' => Some(('5', 'B')),
        '\\' => Some(('5', 'C')),
        ']' => Some(('5', 'D')),
        '^' => Some(('5', 'E')),
        '`' => Some(('6', '0')),
        '{' => Some(('7', 'B')),
        '|' => Some(('7', 'C')),
        '}' => Some(('7', 'D')),
        '~' => Some(('7', 'E')),
        _ => None,
    }
}

fn push_encoded(out: &mut Vec<char>, s: &[char])
    ensures
        final(out)@ == old(out)@ + url_encoded(s@),
{
    let mut i: usize = 0;
    while i < s.len()
        invariant
            i <= s.len(),
            out@ == old(out)@ + url_encoded(s@.take(i as int)),
        decreases s.len() - i,
    {
        let ghost before = out@;
        assert(s@.take(i + 1).drop_last() =~= s@.take(i as int));
        assert(s@.take(i + 1).last() == s@[i as int]);
        match escape_exec(s[i]) {
            Some((h, l)) => {
                out.push('%');
                out.push(h);
                out.push(l);
            },
            None => {
                out.push(s[i]);
            },
        }
        assert(out@ =~= before + encode_char(s@[i as int]));
        i = i + 1;
    }
    assert(s@.take(i as int) =~= s@);
}

/// Minimal URL-encoding: each reserved character is replaced by its `%XX`
/// escape (a space by `%20`, and so on); other characters are kept.
pub fn urlencode(s: &str) -> (r: String)
    ensures
        r@ == url_encoded(s@),
{
    let c = chars_of(s);
    let mut out: Vec<char> = Vec::new();
    push_encoded(&mut out, c.as_slice());
    string_from_chars(out.as_slice())
}

/// Build a full URL with query parameters appended.
pub fn build_url(base: &str, query: &[(String, String)]) -> (r: String)
    ensures
        r@ == full_url(base@, pairs_view(query@)),
{
    if query.len() == 0 {
        return base.to_owned();
    }
    let b = chars_of(base);
    let q = [ '?' ];
    let has_q = contains(b.as_slice(), &q);
    assert(q@ =~= seq!['?']);
    let mut out = b;
    if has_q {
        out.push('&');
    } else {
        out.push('?');
    }
    let ghost prefix = out@;
    let ghost qs = pairs_view(query@);
    let mut i: usize = 0;
    while i < query.len()
        invariant
            i <= query.len(),
            qs == pairs_view(query@),
            out@ == prefix + query_string(qs.take(i as int)),
        decreases query.len() - i,
    {
        let ghost before = out@;
        assert(qs.take(i + 1).drop_last() =~= qs.take(i as int));
        assert(qs.take(i + 1).last() == qs[i as int]);
        if i > 0 {
            out.push('&');
        }
        let k = chars_of(query[i].0.as_str());
        let v = chars_of(query[i].1.as_str());
        push_encoded(&mut out, k.as_slice());
        out.push('=');
        push_encoded(&mut out, v.as_slice());
        if i == 0 {
            assert(qs.take(1) =~= seq![qs[0]]);
            assert(out@ =~= prefix + query_string(qs.take(1)));
        } else {
            assert(out@ =~= before + seq!['&'] + query_param(qs[i as int]));
        }
        i = i + 1;
    }
    assert(qs.take(i as int) =~= qs);
    string_from_chars(out.as_slice())
}

/// The raw request a transport sends for `request` with the JSON body already
/// serialised to `body`: the same method and headers, and the URL with the
/// query parameters appended.
pub fn to_raw_request(request: HttpRequest, body: Vec<u8>) -> (r: RawHttpRequest)
    ensures
        r.method == request.method,
        r.url@ == full_url(request.url@, pairs_view(request.query@)),
        r.headers == request.headers,
        r.body == body,
{
    let url = build_url(request.url.as_str(), request.query.as_slice());
    RawHttpRequest { method: request.method, url, headers: request.headers, body }
}

} // verus!
