use vstd::prelude::*;

use crate::common::{spec_parse_version, Headers, HttpVersion};
use crate::error::{ErrV, Error};
use crate::text::{
    dec_value, find_char, is_alnum, is_alnum_char, is_digit, is_digit_char, lemma_dec_value_prefix,
    lemma_find_char_at, lemma_find_char_none, str_eq,
};

verus! {

/// The length of the longest verb, `OPTIONS`.
pub const MAX_VERB_LEN: usize = 7;

/// The two spaces of a start line.
pub const START_LINE_SPACES: usize = 2;

/// The length of a version literal such as `HTTP/1.1`.
pub const MAX_PROTOCOL_LEN: usize = 8;

#[derive(Debug, PartialEq, Eq, Structural, Clone, Copy)]
pub enum Method {
    GET,
    POST,
    PUT,
    HEAD,
    DELETE,
    CONNECT,
    OPTIONS,
    TRACE,
    PATCH,
}

/// The exact literal that formats a verb.
pub open spec fn method_str(m: Method) -> Seq<char> {
    match m {
        Method::GET => "GET"@,
        Method::POST => "POST"@,
        Method::PUT => "PUT"@,
        Method::HEAD => "HEAD"@,
        Method::DELETE => "DELETE"@,
        Method::CONNECT => "CONNECT"@,
        Method::OPTIONS => "OPTIONS"@,
        Method::TRACE => "TRACE"@,
        Method::PATCH => "PATCH"@,
    }
}

/// The verb a string denotes, if any: an exact, case-sensitive match.
pub open spec fn spec_parse_method(s: Seq<char>) -> Option<Method> {
    if s == "GET"@ {
        Some(Method::GET)
    } else if s == "POST"@ {
        Some(Method::POST)
    } else if s == "PUT"@ {
        Some(Method::PUT)
    } else if s == "HEAD"@ {
        Some(Method::HEAD)
    } else if s == "DELETE"@ {
        Some(Method::DELETE)
    } else if s == "CONNECT"@ {
        Some(Method::CONNECT)
    } else if s == "OPTIONS"@ {
        Some(Method::OPTIONS)
    } else if s == "TRACE"@ {
        Some(Method::TRACE)
    } else if s == "PATCH"@ {
        Some(Method::PATCH)
    } else {
        None
    }
}

impl Method {
    pub fn parse(data: &str) -> (r: Result<Method, Error>)
        ensures
            match r {
                Ok(m) => spec_parse_method(data@) == Some(m),
                Err(e) => spec_parse_method(data@) is None && (e matches Error::InvalidMethod(t)
                    && t@ == data@),
            },
    {
        if str_eq(data, "GET") {
            Ok(Method::GET)
        } else if str_eq(data, "POST") {
            Ok(Method::POST)
        } else if str_eq(data, "PUT") {
            Ok(Method::PUT)
        } else if str_eq(data, "HEAD") {
            Ok(Method::HEAD)
        } else if str_eq(data, "DELETE") {
            Ok(Method::DELETE)
        } else if str_eq(data, "CONNECT") {
            Ok(Method::CONNECT)
        } else if str_eq(data, "OPTIONS") {
            Ok(Method::OPTIONS)
        } else if str_eq(data, "TRACE") {
            Ok(Method::TRACE)
        } else if str_eq(data, "PATCH") {
            Ok(Method::PATCH)
        } else {
            Err(Error::InvalidMethod(data.to_owned()))
        }
    }

    /// The exact literal for this verb, the inverse of `parse`.
    pub fn to_str(&self) -> (r: &'static str)
        ensures
            r@ == method_str(*self),
    {
        match self {
            Method::GET => "GET",
            Method::POST => "POST",
            Method::PUT => "PUT",
            Method::HEAD => "HEAD",
            Method::DELETE => "DELETE",
            Method::CONNECT => "CONNECT",
            Method::OPTIONS => "OPTIONS",
            Method::TRACE => "TRACE",
            Method::PATCH => "PATCH",
        }
    }
}

/// Formatting a verb and parsing it back returns the same verb.
pub proof fn lemma_method_format_parse(m: Method)
    ensures
        spec_parse_method(method_str(m)) == Some(m),
{
    reveal_strlit("GET");
    reveal_strlit("POST");
    reveal_strlit("PUT");
    reveal_strlit("HEAD");
    reveal_strlit("DELETE");
    reveal_strlit("CONNECT");
    reveal_strlit("OPTIONS");
    reveal_strlit("TRACE");
    reveal_strlit("PATCH");
    assert("GET"@.len() == 3);
    assert("POST"@.len() == 4);
    assert("PUT"@.len() == 3);
    assert("HEAD"@.len() == 4);
    assert("DELETE"@.len() == 6);
    assert("CONNECT"@.len() == 7);
    assert("OPTIONS"@.len() == 7);
    assert("TRACE"@.len() == 5);
    assert("PATCH"@.len() == 5);
    match m {
        Method::GET => {
            assert(spec_parse_method("GET"@) == Some(Method::GET));
        },
        Method::POST => {
            assert(spec_parse_method("POST"@) == Some(Method::POST));
        },
        Method::PUT => {
            assert("PUT"@[0] != "GET"@[0]);
            assert(spec_parse_method("PUT"@) == Some(Method::PUT));
        },
        Method::HEAD => {
            assert("HEAD"@[0] != "POST"@[0]);
            assert(spec_parse_method("HEAD"@) == Some(Method::HEAD));
        },
        Method::DELETE => {
            assert(spec_parse_method("DELETE"@) == Some(Method::DELETE));
        },
        Method::CONNECT => {
            assert(spec_parse_method("CONNECT"@) == Some(Method::CONNECT));
        },
        Method::OPTIONS => {
            assert("OPTIONS"@[0] != "CONNECT"@[0]);
            assert(spec_parse_method("OPTIONS"@) == Some(Method::OPTIONS));
        },
        Method::TRACE => {
            assert(spec_parse_method("TRACE"@) == Some(Method::TRACE));
        },
        Method::PATCH => {
            assert("PATCH"@[0] != "TRACE"@[0]);
            assert(spec_parse_method("PATCH"@) == Some(Method::PATCH));
        },
    }
}

/// Parsing a verb string and formatting the result returns the same string.
pub proof fn lemma_method_parse_format(s: Seq<char>)
    ensures
        spec_parse_method(s) matches Some(m) ==> method_str(m) == s,
{
}

/// The host and port part of a target, the destination of a CONNECT tunnel.
#[derive(Debug, PartialEq)]
pub struct Authority {
    pub domain: String,
    pub port: Option<u16>,
}

/// A set of limits on HTTP requests to mitigate slowloris attacks.
#[derive(Debug, Clone, Copy)]
pub struct ParseOptions {
    max_target_len: usize,
    max_headers_section_len: usize,
    max_header_len: usize,
    max_body_len: usize,
}

impl ParseOptions {
    pub closed spec fn spec_max_target_len(&self) -> nat {
        self.max_target_len as nat
    }

    pub closed spec fn spec_max_headers_section_len(&self) -> nat {
        self.max_headers_section_len as nat
    }

    pub closed spec fn spec_max_header_len(&self) -> nat {
        self.max_header_len as nat
    }

    pub closed spec fn spec_max_body_len(&self) -> nat {
        self.max_body_len as nat
    }

    /// The worst-case bound on a start line: the target limit plus the
    /// longest verb, two spaces, and a version literal.
    pub open spec fn spec_max_start_line_len(&self) -> nat {
        self.spec_max_target_len() + 17
    }

    /// The limits are small enough that the parser's bookkeeping cannot
    /// overflow a `usize`.
    pub open spec fn wf(&self) -> bool {
        &&& self.spec_max_start_line_len() + 1 <= usize::MAX
        &&& self.spec_max_headers_section_len() + self.spec_max_header_len() + 1 <= usize::MAX
    }

    /// Returns the maximum length of a start line with this configuration.
    pub fn max_start_line_len(&self) -> (r: usize)
        requires
            self.wf(),
        ensures
            r as nat == self.spec_max_start_line_len(),
    {
        self.max_target_len + MAX_VERB_LEN + START_LINE_SPACES + MAX_PROTOCOL_LEN
    }

    pub fn max_headers_section_len(&self) -> (r: usize)
        ensures
            r as nat == self.spec_max_headers_section_len(),
    {
        self.max_headers_section_len
    }

    pub fn max_header_len(&self) -> (r: usize)
        ensures
            r as nat == self.spec_max_header_len(),
    {
        self.max_header_len
    }
}

impl Default for ParseOptions {
    /// The default limits: a 16 KiB target, a 16 KiB headers section,
    /// 1 KiB per header, 2 MiB of body.
    fn default() -> (r: Self)
        ensures
            r.spec_max_target_len() == 16384,
            r.spec_max_headers_section_len() == 16384,
            r.spec_max_header_len() == 1024,
            r.spec_max_body_len() == 2097152,
            r.wf(),
    {
        Self {
            max_target_len: 16384,
            max_headers_section_len: 16384,
            max_header_len: 1024,
            max_body_len: 2097152,
        }
    }
}

/// A URL in the sense of the `url` crate, used as an opaque value.
#[verifier::external_type_specification]
#[verifier::external_body]
pub struct ExUrl(url::Url);

/// Whether a string parses as an absolute URL. `url::Url::parse` is a
/// function of its input alone, so its success is named here and left
/// otherwise unspecified.
pub uninterp spec fn url_parse_ok(s: Seq<char>) -> bool;

/// Relies on `url::Url::parse`: it deterministically either parses the
/// string as an absolute URL or reports an error.
#[verifier::external_body]
fn parse_url(s: &str) -> (r: Option<url::Url>)
    ensures
        r is Some <==> url_parse_ok(s@),
{
    match url::Url::parse(s) {
        Ok(u) => Some(u),
        Err(_) => None,
    }
}

/// A domain of the authority form: dot-separated, non-empty alphanumeric
/// labels, at least two of them.
pub open spec fn is_domain_seq(t: Seq<char>) -> bool {
    &&& t.len() > 0
    &&& t[0] != '.'
    &&& t[t.len() - 1] != '.'
    &&& (forall|i: int| 0 <= i < t.len() ==> is_alnum_char(t[i]) || t[i] == '.')
    &&& (forall|i: int| 0 <= i < t.len() - 1 ==> !((#[trigger] t[i]) == '.' && t[i + 1] == '.'))
    &&& (exists|i: int| 0 <= i < t.len() && t[i] == '.')
}

/// One or more decimal digits.
pub open spec fn is_port_seq(t: Seq<char>) -> bool {
    t.len() > 0 && (forall|i: int| 0 <= i < t.len() ==> is_digit_char(t[i]))
}

/// The authority grammar: a domain, optionally followed by a colon and
/// a digit-only port.
pub open spec fn spec_authority_form(s: Seq<char>) -> bool {
    match find_char(s, ':') {
        None => is_domain_seq(s),
        Some(i) => is_domain_seq(s.subrange(0, i)) && is_port_seq(
            s.subrange(i + 1, s.len() as int),
        ),
    }
}

/// The shape a target string falls under, before the URL capability is
/// consulted.
pub ghost enum TargetClass {
    Invalid,
    PathForm,
    GlobForm,
    AuthorityForm(Seq<char>, Option<nat>),
    UrlForm,
}

/// Classifies a target string: empty and over-large ports are invalid, a
/// leading slash is a path, a lone asterisk is the glob, the authority
/// grammar gives a domain and optional port, and anything else is a URL
/// candidate.
pub open spec fn spec_classify_target(s: Seq<char>) -> TargetClass {
    if s.len() == 0 {
        TargetClass::Invalid
    } else if s[0] == '/' {
        TargetClass::PathForm
    } else if s[0] == '*' {
        if s.len() == 1 {
            TargetClass::GlobForm
        } else {
            TargetClass::Invalid
        }
    } else if spec_authority_form(s) {
        match find_char(s, ':') {
            None => TargetClass::AuthorityForm(s, None),
            Some(i) => {
                let pv = dec_value(s.subrange(i + 1, s.len() as int));
                if pv <= 65535 {
                    TargetClass::AuthorityForm(s.subrange(0, i), Some(pv))
                } else {
                    TargetClass::Invalid
                }
            },
        }
    } else {
        TargetClass::UrlForm
    }
}

/// Whether parsing the target string can succeed at all.
pub open spec fn target_parses(s: Seq<char>) -> bool {
    match spec_classify_target(s) {
        TargetClass::Invalid => false,
        TargetClass::UrlForm => url_parse_ok(s),
        _ => true,
    }
}

pub open spec fn port_matches(p: Option<u16>, v: Option<nat>) -> bool {
    match (p, v) {
        (Some(x), Some(y)) => x as nat == y,
        (None, None) => true,
        _ => false,
    }
}

/// The second field in the start line.
#[derive(Debug, PartialEq)]
pub enum Target {
    /// Absolute path form: the string starts with `/`.
    Path(String),
    /// Absolute URL form.
    Url(url::Url),
    /// Host and optional port: the destination of a CONNECT tunnel.
    Authority(Authority),
    /// The literal `*`.
    Glob,
}

/// The target value that parsing the string must produce.
pub open spec fn target_matches(t: Target, s: Seq<char>) -> bool {
    match spec_classify_target(s) {
        TargetClass::Invalid => false,
        TargetClass::PathForm => t matches Target::Path(p) && p@ == s,
        TargetClass::GlobForm => t matches Target::Glob,
        TargetClass::AuthorityForm(d, v) => t matches Target::Authority(a) && a.domain@ == d
            && port_matches(a.port, v),
        TargetClass::UrlForm => url_parse_ok(s) && t matches Target::Url(_),
    }
}

/// Checks the domain grammar on the first `end` characters.
fn is_domain_str(s: &str, end: usize) -> (r: bool)
    requires
        end <= s@.len(),
    ensures
        r == is_domain_seq(s@.subrange(0, end as int)),
{
    let ghost t = s@.subrange(0, end as int);
    if end == 0 {
        return false;
    }
    let mut i: usize = 0;
    let mut has_dot = false;
    while i < end
        invariant
            0 <= i <= end,
            end <= s@.len(),
            t == s@.subrange(0, end as int),
            forall|k: int| 0 <= k < i ==> (is_alnum_char(t[k]) || t[k] == '.'),
            forall|k: int| 0 <= k < i - 1 ==> !((#[trigger] t[k]) == '.' && t[k + 1] == '.'),
            i > 0 ==> t[0] != '.',
            has_dot == (exists|k: int| 0 <= k < i && t[k] == '.'),
        decreases end - i,
    {
        let c = s.get_char(i);
        proof {
            assert(t[i as int] == s@[i as int]);
        }
        if c == '.' {
            if i == 0 {
                return false;
            }
            let prev = s.get_char(i - 1);
            if prev == '.' {
                proof {
                    assert(t[i - 1] == '.' && t[i as int] == '.');
                }
                return false;
            }
            has_dot = true;
        } else {
            if !is_alnum(c) {
                proof {
                    assert(!(is_alnum_char(t[i as int]) || t[i as int] == '.'));
                }
                return false;
            }
        }
        i = i + 1;
    }
    let last = s.get_char(end - 1);
    if last == '.' {
        proof {
            assert(t[t.len() - 1] == '.');
        }
        return false;
    }
    proof {
        assert(t[t.len() - 1] == s@[end - 1]);
    }
    has_dot
}

/// Parses the digits after the colon; `None` when the value does not fit
/// in 16 bits.
fn parse_port_value(s: &str, from: usize) -> (r: Option<u16>)
    requires
        from < s@.len(),
        forall|k: int| from <= k < s@.len() ==> is_digit_char(s@[k]),
    ensures
        ({
            let t = s@.subrange(from as int, s@.len() as int);
            match r {
                Some(p) => dec_value(t) <= 65535 && p as nat == dec_value(t),
                None => dec_value(t) > 65535,
            }
        }),
{
    let n = s.unicode_len();
    let ghost t = s@.subrange(from as int, n as int);
    let mut acc: u32 = 0;
    let mut i: usize = from;
    proof {
        assert(t.subrange(0, 0) =~= Seq::<char>::empty());
    }
    while i < n
        invariant
            from <= i <= n,
            n == s@.len(),
            t == s@.subrange(from as int, n as int),
            forall|k: int| from <= k < n ==> is_digit_char(s@[k]),
            acc <= 65535,
            acc as nat == dec_value(t.subrange(0, i - from)),
        decreases n - i,
    {
        let c = s.get_char(i);
        proof {
            assert(t[i - from] == s@[i as int]);
            assert(is_digit_char(c));
        }
        let d: u32 = (c as u32) - 48;
        let next: u32 = acc * 10 + d;
        proof {
            assert(t.subrange(0, i + 1 - from).drop_last() =~= t.subrange(0, i - from));
            assert(t.subrange(0, i + 1 - from).last() == t[i - from]);
            assert(next as nat == dec_value(t.subrange(0, i + 1 - from)));
        }
        if next > 65535 {
            proof {
                lemma_dec_value_prefix(t, i + 1 - from);
            }
            return None;
        }
        acc = next;
        i = i + 1;
    }
    proof {
        assert(t.subrange(0, n - from) =~= t);
    }
    Some(acc as u16)
}

/// Whether every character from `from` on is a decimal digit.
fn all_digits(s: &str, from: usize, n: usize) -> (r: bool)
    requires
        from <= n,
        n == s@.len(),
    ensures
        r == (forall|k: int| from <= k < n ==> is_digit_char(s@[k])),
{
    let mut j: usize = from;
    while j < n
        invariant
            from <= j <= n,
            n == s@.len(),
            forall|k: int| from <= k < j ==> is_digit_char(s@[k]),
        decreases n - j,
    {
        if !is_digit(s.get_char(j)) {
            return false;
        }
        j = j + 1;
    }
    true
}

impl Target {
    pub fn parse(target_str: &str) -> (r: Result<Target, Error>)
        ensures
            match r {
                Ok(t) => target_matches(t, target_str@),
                Err(e) => !target_parses(target_str@) && e == Error::InvalidTarget,
            },
    {
        let n = target_str.unicode_len();
        if n == 0 {
            return Err(Error::InvalidTarget);
        }
        let c0 = target_str.get_char(0);
        if c0 == '/' {
            return Ok(Target::Path(target_str.to_owned()));
        }
        if c0 == '*' {
            return if n == 1 {
                Ok(Target::Glob)
            } else {
                Err(Error::InvalidTarget)
            };
        }
        // Attempt the authority grammar: domain, optional `:port`.
        let mut ci: usize = 0;
        while ci < n && target_str.get_char(ci) != ':'
            invariant
                0 <= ci <= n,
                n == target_str@.len(),
                forall|k: int| 0 <= k < ci ==> target_str@[k] != ':',
            decreases n - ci,
        {
            ci = ci + 1;
        }
        proof {
            if ci == n {
                lemma_find_char_none(target_str@, ':');
            } else {
                lemma_find_char_at(target_str@, ':', ci as int);
            }
        }
        if is_domain_str(target_str, ci) {
            if ci == n {
                proof {
                    assert(target_str@.subrange(0, n as int) =~= target_str@);
                }
                return Ok(
                    Target::Authority(Authority { domain: target_str.to_owned(), port: None }),
                );
            }
            if ci + 1 < n && all_digits(target_str, ci + 1, n) {
                proof {
                    assert(is_port_seq(target_str@.subrange(ci + 1, n as int)));
                }
                match parse_port_value(target_str, ci + 1) {
                    Some(p) => {
                        let domain = target_str.substring_char(0, ci).to_owned();
                        return Ok(Target::Authority(Authority { domain, port: Some(p) }));
                    },
                    None => {
                        return Err(Error::InvalidTarget);
                    },
                }
            }
            // Not an authority after all: fall through to the URL capability.
            proof {
                let t = target_str@.subrange(ci + 1, n as int);
                if ci + 1 == n {
                    assert(t.len() == 0);
                } else {
                    let k = choose|k: int|
                        ci + 1 <= k < n && !is_digit_char(target_str@[k]);
                    assert(t[k - (ci + 1)] == target_str@[k]);
                }
                assert(!is_port_seq(t));
            }
        } else {
            proof {
                if ci == n {
                    assert(target_str@.subrange(0, n as int) =~= target_str@);
                }
            }
        }
        match parse_url(target_str) {
            Some(u) => Ok(Target::Url(u)),
            None => Err(Error::InvalidTarget),
        }
    }
}

/// The first line of a request: method, target, version.
#[derive(Debug, PartialEq)]
pub struct StartLine {
    pub method: Method,
    pub target: Target,
    pub version: HttpVersion,
}

/// The outcome of parsing a start line, with the target kept as the
/// source characters it was parsed from.
pub ghost enum SpecStartLine {
    Valid { method: Method, target: Seq<char>, version: HttpVersion },
    Bad { err: ErrV },
}

/// Splits on spaces and parses the first three tokens in order: verb,
/// target, version. A missing token fails, and anything after the third
/// token is ignored.
pub open spec fn spec_parse_start_line(s: Seq<char>) -> SpecStartLine {
    let tok1 = match find_char(s, ' ') {
        None => s,
        Some(i) => s.subrange(0, i),
    };
    match spec_parse_method(tok1) {
        None => SpecStartLine::Bad { err: ErrV::InvalidMethod(tok1) },
        Some(m) => match find_char(s, ' ') {
            None => SpecStartLine::Bad { err: ErrV::InvalidStartLine },
            Some(i1) => {
                let rest = s.subrange(i1 + 1, s.len() as int);
                let tok2 = match find_char(rest, ' ') {
                    None => rest,
                    Some(i) => rest.subrange(0, i),
                };
                if !target_parses(tok2) {
                    SpecStartLine::Bad { err: ErrV::InvalidTarget }
                } else {
                    match find_char(rest, ' ') {
                        None => SpecStartLine::Bad { err: ErrV::InvalidStartLine },
                        Some(i2) => {
                            let rest2 = rest.subrange(i2 + 1, rest.len() as int);
                            let tok3 = match find_char(rest2, ' ') {
                                None => rest2,
                                Some(i) => rest2.subrange(0, i),
                            };
                            match spec_parse_version(tok3) {
                                None => SpecStartLine::Bad { err: ErrV::InvalidHttpVersion },
                                Some(v) => SpecStartLine::Valid {
                                    method: m,
                                    target: tok2,
                                    version: v,
                                },
                            }
                        },
                    }
                }
            },
        },
    }
}

/// Finds the first space at or after `from`, or the end of the string.
fn find_space(s: &str, from: usize, n: usize) -> (r: usize)
    requires
        from <= n,
        n == s@.len(),
    ensures
        from <= r <= n,
        forall|k: int| from <= k < r ==> s@[k] != ' ',
        r < n ==> s@[r as int] == ' ',
{
    let mut j: usize = from;
    while j < n && s.get_char(j) != ' '
        invariant
            from <= j <= n,
            n == s@.len(),
            forall|k: int| from <= k < j ==> s@[k] != ' ',
        decreases n - j,
    {
        j = j + 1;
    }
    j
}

impl StartLine {
    pub fn parse(data: &str) -> (r: Result<StartLine, Error>)
        ensures
            match r {
                Ok(sl) => spec_parse_start_line(data@) matches SpecStartLine::Valid {
                    method,
                    target,
                    version,
                } && sl.method == method && target_matches(sl.target, target) && sl.version
                    == version,
                Err(e) => spec_parse_start_line(data@) matches SpecStartLine::Bad { err } && e@
                    == err,
            },
    {
        let n = data.unicode_len();
        let i1 = find_space(data, 0, n);
        proof {
            if i1 == n {
                lemma_find_char_none(data@, ' ');
                assert(data@.subrange(0, n as int) =~= data@);
            } else {
                lemma_find_char_at(data@, ' ', i1 as int);
            }
        }
        let tok1 = data.substring_char(0, i1);
        let method = match Method::parse(tok1) {
            Ok(m) => m,
            Err(e) => {
                return Err(e);
            },
        };
        if i1 == n {
            return Err(Error::InvalidStartLine);
        }
        let ghost rest = data@.subrange(i1 + 1, n as int);
        let i2 = find_space(data, i1 + 1, n);
        proof {
            if i2 == n {
                lemma_find_char_none(rest, ' ');
                assert(rest.subrange(0, i2 - (i1 + 1)) =~= rest);
            } else {
                lemma_find_char_at(rest, ' ', i2 - (i1 + 1));
                assert(rest.subrange(0, i2 - (i1 + 1)) =~= data@.subrange(i1 + 1, i2 as int));
            }
            assert(data@.subrange(i1 + 1, i2 as int) =~= rest.subrange(0, i2 - (i1 + 1)));
        }
        let tok2 = data.substring_char(i1 + 1, i2);
        let target = match Target::parse(tok2) {
            Ok(t) => t,
            Err(e) => {
                return Err(e);
            },
        };
        if i2 == n {
            return Err(Error::InvalidStartLine);
        }
        let ghost rest2 = rest.subrange(i2 + 1 - (i1 + 1), rest.len() as int);
        proof {
            assert(rest2 =~= data@.subrange(i2 + 1, n as int));
        }
        let i3 = find_space(data, i2 + 1, n);
        proof {
            if i3 == n {
                lemma_find_char_none(rest2, ' ');
                assert(rest2.subrange(0, i3 - (i2 + 1)) =~= rest2);
            } else {
                lemma_find_char_at(rest2, ' ', i3 - (i2 + 1));
            }
            assert(data@.subrange(i2 + 1, i3 as int) =~= rest2.subrange(0, i3 - (i2 + 1)));
        }
        let tok3 = data.substring_char(i2 + 1, i3);
        let version = match HttpVersion::parse(tok3) {
            Ok(v) => v,
            Err(e) => {
                return Err(e);
            },
        };
        Ok(StartLine { method, target, version })
    }
}

/// ASCII bytes read as characters.
pub open spec fn line_chars(line: Seq<u8>) -> Seq<char> {
    line.map_values(|b: u8| b as char)
}

/// The parser's state between bytes: still on the start line, or inside
/// the headers section with the start line settled and `used` bytes of
/// completed header lines behind it.
pub ghost enum Phase {
    Start,
    Hdrs {
        used: nat,
        method: Method,
        target: Seq<char>,
        version: HttpVersion,
        headers: Map<Seq<char>, Seq<char>>,
    },
}

/// The outcome of a parse: a complete request, with the count of bytes
/// consumed off the stream, or the first failure.
pub ghost enum SpecParse {
    Complete {
        method: Method,
        target: Seq<char>,
        version: HttpVersion,
        headers: Map<Seq<char>, Seq<char>>,
        consumed: int,
    },
    Fail { err: ErrV },
}

/// The limit that the current line breaks, checked before the next byte
/// joins the line.
pub open spec fn limit_error(opts: ParseOptions, ph: Phase, line: Seq<u8>) -> Option<ErrV> {
    match ph {
        Phase::Start => if line.len() > opts.spec_max_start_line_len() {
            Some(ErrV::StartLineExceedsMaxLength)
        } else {
            None
        },
        Phase::Hdrs { used, .. } => if opts.spec_max_headers_section_len() < used + line.len() {
            Some(ErrV::HeadersSectionTooLong)
        } else if line.len() > opts.spec_max_header_len() {
            Some(ErrV::HeaderTooLong)
        } else {
            None
        },
    }
}

/// One byte at a time: limits first, then the ASCII check, then line
/// termination — a CR must be followed by a LF, a bare LF is tolerated —
/// and otherwise the byte joins the current line.
pub open spec fn spec_run(input: Seq<u8>, pos: int, opts: ParseOptions, ph: Phase, line: Seq<u8>) -> SpecParse
    decreases input.len() - pos, 0int,
    when 0 <= pos <= input.len()
{
    if pos == input.len() {
        SpecParse::Fail { err: ErrV::UnexpectedEndOfStream }
    } else {
        match limit_error(opts, ph, line) {
            Some(e) => SpecParse::Fail { err: e },
            None => if input[pos] >= 128 {
                SpecParse::Fail { err: ErrV::InvalidEncoding }
            } else if input[pos] == 13 {
                if pos + 1 == input.len() {
                    SpecParse::Fail { err: ErrV::UnexpectedEndOfStream }
                } else if input[pos + 1] != 10 {
                    SpecParse::Fail { err: ErrV::UnexpectedCR }
                } else {
                    spec_line_done(input, pos + 2, opts, ph, line)
                }
            } else if input[pos] == 10 {
                spec_line_done(input, pos + 1, opts, ph, line)
            } else {
                spec_run(input, pos + 1, opts, ph, line.push(input[pos]))
            },
        }
    }
}

/// A completed line: the start line moves the parser into the headers
/// phase, an empty header line completes the request, and any other line
/// must be a header.
pub open spec fn spec_line_done(input: Seq<u8>, pos: int, opts: ParseOptions, ph: Phase, line: Seq<u8>) -> SpecParse
    decreases input.len() - pos, 1int,
    when 0 <= pos <= input.len()
{
    match ph {
        Phase::Start => match spec_parse_start_line(line_chars(line)) {
            SpecStartLine::Bad { err } => SpecParse::Fail { err },
            SpecStartLine::Valid { method, target, version } => spec_run(
                input,
                pos,
                opts,
                Phase::Hdrs { used: 0, method, target, version, headers: Map::empty() },
                Seq::empty(),
            ),
        },
        Phase::Hdrs { used, method, target, version, headers } => {
            if line.len() == 0 {
                SpecParse::Complete { method, target, version, headers, consumed: pos }
            } else {
                match Headers::spec_parse_header(line_chars(line)) {
                    None => SpecParse::Fail { err: ErrV::InvalidHeader },
                    Some((k, v)) => spec_run(
                        input,
                        pos,
                        opts,
                        Phase::Hdrs {
                            used: used + line.len(),
                            method,
                            target,
                            version,
                            headers: headers.insert(k, v),
                        },
                        Seq::empty(),
                    ),
                }
            }
        },
    }
}

/// What parsing the whole byte stream yields.
pub open spec fn spec_parse_request(input: Seq<u8>, opts: ParseOptions) -> SpecParse {
    spec_run(input, 0, opts, Phase::Start, Seq::empty())
}

/// A parsed request: the start line and the headers. Whatever follows the
/// blank line — a body, or tunnelled bytes — is intentionally left on the
/// stream.
#[derive(Debug, PartialEq)]
pub struct Request {
    pub start_line: StartLine,
    pub headers: Headers,
}

enum ParsePhase {
    Start,
    Hdrs { used: usize, start_line: StartLine, headers: Headers },
}

/// The model of the parser's exec state; the target is carried as the
/// source characters it was parsed from.
spec fn phase_model(ph: &ParsePhase, tsrc: Seq<char>) -> Phase {
    match ph {
        ParsePhase::Start => Phase::Start,
        ParsePhase::Hdrs { used, start_line, headers } => Phase::Hdrs {
            used: *used as nat,
            method: start_line.method,
            target: tsrc,
            version: start_line.version,
            headers: headers@,
        },
    }
}

impl Request {
    /// Consumes the stream and parses the request start line and headers,
    /// aborting as soon as a line outgrows the configured limits. Bytes
    /// after the blank line are not touched.
    pub fn parse(data: &[u8], parse_options: &ParseOptions) -> (r: Result<Request, Error>)
        requires
            parse_options.wf(),
        ensures
            match r {
                Ok(req) => spec_parse_request(data@, *parse_options) matches SpecParse::Complete {
                    method,
                    target,
                    version,
                    headers,
                    ..
                } && req.start_line.method == method && target_matches(
                    req.start_line.target,
                    target,
                ) && req.start_line.version == version && req.headers@ == headers,
                Err(e) => spec_parse_request(data@, *parse_options) matches SpecParse::Fail { err }
                    && e@ == err,
            },
    {
        let opts = *parse_options;
        let n = data.len();
        let mut pos: usize = 0;
        let mut line: Vec<u8> = Vec::new();
        let mut phase = ParsePhase::Start;
        let ghost mut tsrc: Seq<char> = Seq::empty();
        loop
            invariant
                0 <= pos <= n,
                n == data@.len(),
                opts == *parse_options,
                opts.wf(),
                forall|k: int| 0 <= k < line@.len() ==> line@[k] < 128,
                (phase matches ParsePhase::Start) ==> line@.len() <= opts.spec_max_start_line_len()
                    + 1,
                (phase matches ParsePhase::Hdrs { used, start_line, .. } ==> used as nat
                    <= opts.spec_max_headers_section_len() && line@.len()
                    <= opts.spec_max_header_len() + 1 && target_matches(start_line.target, tsrc)),
                spec_parse_request(data@, opts) == spec_run(
                    data@,
                    pos as int,
                    opts,
                    phase_model(&phase, tsrc),
                    line@,
                ),
            decreases n - pos,
        {
            if pos == n {
                return Err(Error::UnexpectedEndOfStream);
            }
            // Limit checks come before the byte is considered at all.
            match &phase {
                ParsePhase::Start => {
                    if line.len() > opts.max_start_line_len() {
                        return Err(Error::StartLineExceedsMaxLength);
                    }
                },
                ParsePhase::Hdrs { used, .. } => {
                    if opts.max_headers_section_len() < *used + line.len() {
                        return Err(Error::HeadersSectionTooLong);
                    }
                    if line.len() > opts.max_header_len() {
                        return Err(Error::HeaderTooLong);
                    }
                },
            }
            let b = data[pos];
            if b >= 128 {
                return Err(Error::InvalidEncoding);
            }
            let ghost pos0 = pos as int;
            let ghost ph0 = phase_model(&phase, tsrc);
            let ghost lbytes0 = line@;
            let line_end: bool;
            if b == 13 {
                if pos + 1 == n {
                    return Err(Error::UnexpectedEndOfStream);
                }
                if data[pos + 1] != 10 {
                    return Err(Error::UnexpectedCR);
                }
                pos = pos + 2;
                line_end = true;
            } else if b == 10 {
                pos = pos + 1;
                line_end = true;
            } else {
                pos = pos + 1;
                line.push(b);
                line_end = false;
            }
            if line_end {
                proof {
                    assert(limit_error(opts, ph0, lbytes0) is None);
                    assert(spec_run(data@, pos0, opts, ph0, lbytes0) == spec_line_done(
                        data@,
                        pos as int,
                        opts,
                        ph0,
                        lbytes0,
                    ));
                }
                let line_len = line.len();
                let text = crate::text::ascii_to_string(line);
                proof {
                    assert(text@ =~= line_chars(lbytes0));
                }
                phase = match phase {
                    ParsePhase::Start => {
                        let start_line = match StartLine::parse(text.as_str()) {
                            Ok(sl) => sl,
                            Err(e) => {
                                return Err(e);
                            },
                        };
                        proof {
                            tsrc = match spec_parse_start_line(line_chars(lbytes0)) {
                                SpecStartLine::Valid { target, .. } => target,
                                _ => tsrc,
                            };
                        }
                        let hs = Headers::new(Vec::new());
                        proof {
                            assert(hs.entries() =~= Seq::<(Seq<char>, Seq<char>)>::empty());
                            assert(hs@ =~= Map::<Seq<char>, Seq<char>>::empty());
                        }
                        ParsePhase::Hdrs { used: 0, start_line, headers: hs }
                    },
                    ParsePhase::Hdrs { used, start_line, mut headers } => {
                        if line_len == 0 {
                            return Ok(Request { start_line, headers });
                        }
                        let (k, v) = match Headers::parse_header(text.as_str()) {
                            Ok(kv) => kv,
                            Err(e) => {
                                return Err(e);
                            },
                        };
                        let key = k.to_owned();
                        let value = v.to_owned();
                        headers.insert(key, value);
                        ParsePhase::Hdrs { used: used + line_len, start_line, headers }
                    },
                };
                line = Vec::new();
            }
        }
    }
}

/// A byte that neither terminates a line nor fails the ASCII check.
pub open spec fn is_plain_byte(b: u8) -> bool {
    b < 128 && b != 13 && b != 10
}

/// Running the parser over ordinary bytes only accumulates them onto the
/// current line, as long as no limit trips along the way.
pub proof fn lemma_run_plain(
    input: Seq<u8>,
    pos: int,
    opts: ParseOptions,
    ph: Phase,
    line: Seq<u8>,
    n: int,
)
    requires
        0 <= pos,
        0 <= n,
        pos + n <= input.len(),
        forall|k: int| pos <= k < pos + n ==> is_plain_byte(input[k]),
        forall|j: int|
            0 <= j < n ==> (#[trigger] limit_error(opts, ph, line + input.subrange(pos, pos + j)))
                is None,
    ensures
        spec_run(input, pos, opts, ph, line) == spec_run(
            input,
            pos + n,
            opts,
            ph,
            line + input.subrange(pos, pos + n),
        ),
    decreases n,
{
    if n == 0 {
        assert(line + input.subrange(pos, pos) =~= line);
    } else {
        assert(limit_error(opts, ph, line + input.subrange(pos, pos + 0)) is None);
        assert(line + input.subrange(pos, pos + 0) =~= line);
        let line1 = line + input.subrange(pos, pos + 1);
        assert(line.push(input[pos]) =~= line1);
        assert(spec_run(input, pos, opts, ph, line) == spec_run(input, pos + 1, opts, ph, line1));
        assert forall|j: int| 0 <= j < n - 1 implies (#[trigger] limit_error(
            opts,
            ph,
            line1 + input.subrange(pos + 1, pos + 1 + j),
        )) is None by {
            assert(limit_error(opts, ph, line + input.subrange(pos, pos + (j + 1))) is None);
            assert(line1 + input.subrange(pos + 1, pos + 1 + j) =~= line + input.subrange(
                pos,
                pos + (j + 1),
            ));
        }
        lemma_run_plain(input, pos + 1, opts, ph, line1, n - 1);
        assert(line1 + input.subrange(pos + 1, pos + n) =~= line + input.subrange(pos, pos + n));
    }
}

/// A start line longer than the configured maximum always fails with
/// `StartLineExceedsMaxLength`, before any further byte is accepted:
/// whatever follows those bytes cannot change the outcome.
pub proof fn lemma_start_line_limit(input: Seq<u8>, opts: ParseOptions)
    requires
        opts.spec_max_start_line_len() + 2 <= input.len(),
        forall|k: int|
            0 <= k < opts.spec_max_start_line_len() + 2 ==> is_plain_byte(input[k]),
    ensures
        spec_parse_request(input, opts) == (SpecParse::Fail {
            err: ErrV::StartLineExceedsMaxLength,
        }),
{
    let m = opts.spec_max_start_line_len() as int;
    assert forall|j: int| 0 <= j < m + 1 implies (#[trigger] limit_error(
        opts,
        Phase::Start,
        Seq::empty() + input.subrange(0, j),
    )) is None by {
        assert((Seq::empty() + input.subrange(0, j)).len() == j);
    }
    lemma_run_plain(input, 0, opts, Phase::Start, Seq::empty(), m + 1);
    assert((Seq::empty() + input.subrange(0, m + 1)).len() == m + 1);
}

/// In the headers phase, a single header line longer than the per-header
/// limit fails with `HeaderTooLong` even while the whole-section budget
/// still has room for it.
pub proof fn lemma_header_limit(input: Seq<u8>, pos: int, opts: ParseOptions, ph: Phase)
    requires
        ph matches Phase::Hdrs { used, .. } && used + opts.spec_max_header_len() + 1
            <= opts.spec_max_headers_section_len(),
        0 <= pos,
        pos + opts.spec_max_header_len() + 2 <= input.len(),
        forall|k: int|
            pos <= k < pos + opts.spec_max_header_len() + 2 ==> is_plain_byte(input[k]),
    ensures
        spec_run(input, pos, opts, ph, Seq::empty()) == (SpecParse::Fail {
            err: ErrV::HeaderTooLong,
        }),
{
    let m = opts.spec_max_header_len() as int;
    assert forall|j: int| 0 <= j < m + 1 implies (#[trigger] limit_error(
        opts,
        ph,
        Seq::empty() + input.subrange(pos, pos + j),
    )) is None by {
        assert((Seq::empty() + input.subrange(pos, pos + j)).len() == j);
    }
    lemma_run_plain(input, pos, opts, ph, Seq::empty(), m + 1);
    assert((Seq::empty() + input.subrange(pos, pos + m + 1)).len() == m + 1);
}

/// Once a valid start line is terminated by CRLF, the parser stands at
/// the beginning of the headers section, with none of the section budget
/// used yet.
pub proof fn lemma_past_start_line(input: Seq<u8>, opts: ParseOptions, i: int)
    requires
        0 <= i,
        i + 1 < input.len(),
        i <= opts.spec_max_start_line_len(),
        forall|k: int| 0 <= k < i ==> is_plain_byte(input[k]),
        input[i] == 13,
        input[i + 1] == 10,
    ensures
        spec_parse_start_line(line_chars(input.subrange(0, i))) matches SpecStartLine::Valid {
            method,
            target,
            version,
        } ==> spec_parse_request(input, opts) == spec_run(
            input,
            i + 2,
            opts,
            Phase::Hdrs { used: 0, method, target, version, headers: Map::empty() },
            Seq::empty(),
        ),
{
    assert forall|j: int| 0 <= j < i implies (#[trigger] limit_error(
        opts,
        Phase::Start,
        Seq::empty() + input.subrange(0, j),
    )) is None by {
        assert((Seq::empty() + input.subrange(0, j)).len() == j);
    }
    lemma_run_plain(input, 0, opts, Phase::Start, Seq::empty(), i);
    let line = Seq::empty() + input.subrange(0, i);
    assert(line =~= input.subrange(0, i));
    assert(line.len() == i);
    assert(spec_run(input, i, opts, Phase::Start, line) == spec_line_done(
        input,
        i + 2,
        opts,
        Phase::Start,
        line,
    ));
}

/// A request whose start line is valid and whose first header line then
/// outgrows the per-header limit fails with `HeaderTooLong`, even though
/// the whole-section budget still has room for a full-length header.
pub proof fn lemma_first_header_too_long(input: Seq<u8>, opts: ParseOptions, i: int)
    requires
        0 <= i,
        i <= opts.spec_max_start_line_len(),
        opts.spec_max_header_len() + 1 <= opts.spec_max_headers_section_len(),
        i + 2 + opts.spec_max_header_len() + 2 <= input.len(),
        forall|k: int| 0 <= k < i ==> is_plain_byte(input[k]),
        input[i] == 13,
        input[i + 1] == 10,
        forall|k: int|
            i + 2 <= k < i + 2 + opts.spec_max_header_len() + 2 ==> is_plain_byte(input[k]),
        spec_parse_start_line(line_chars(input.subrange(0, i))) is Valid,
    ensures
        spec_parse_request(input, opts) == (SpecParse::Fail { err: ErrV::HeaderTooLong }),
{
    lemma_past_start_line(input, opts, i);
    match spec_parse_start_line(line_chars(input.subrange(0, i))) {
        SpecStartLine::Valid { method, target, version } => {
            let ph = Phase::Hdrs { used: 0, method, target, version, headers: Map::empty() };
            lemma_header_limit(input, i + 2, opts, ph);
        },
        SpecStartLine::Bad { .. } => {},
    }
}

/// A stream that ends in the middle of the start line, with no terminator
/// in sight and the length limit not yet reached, fails with
/// `UnexpectedEndOfStream`.
pub proof fn lemma_end_of_stream_mid_line(input: Seq<u8>, opts: ParseOptions)
    requires
        input.len() <= opts.spec_max_start_line_len() + 1,
        forall|k: int| 0 <= k < input.len() ==> is_plain_byte(input[k]),
    ensures
        spec_parse_request(input, opts) == (SpecParse::Fail { err: ErrV::UnexpectedEndOfStream }),
{
    let n = input.len() as int;
    assert forall|j: int| 0 <= j < n implies (#[trigger] limit_error(
        opts,
        Phase::Start,
        Seq::empty() + input.subrange(0, j),
    )) is None by {
        assert((Seq::empty() + input.subrange(0, j)).len() == j);
    }
    lemma_run_plain(input, 0, opts, Phase::Start, Seq::empty(), n);
}

/// A carriage return in the start line that is not followed by a line
/// feed fails with `UnexpectedCR`.
pub proof fn lemma_bare_cr(input: Seq<u8>, opts: ParseOptions, i: int)
    requires
        0 <= i,
        i + 1 < input.len(),
        i <= opts.spec_max_start_line_len(),
        forall|k: int| 0 <= k < i ==> is_plain_byte(input[k]),
        input[i] == 13,
        input[i + 1] != 10,
    ensures
        spec_parse_request(input, opts) == (SpecParse::Fail { err: ErrV::UnexpectedCR }),
{
    assert forall|j: int| 0 <= j < i implies (#[trigger] limit_error(
        opts,
        Phase::Start,
        Seq::empty() + input.subrange(0, j),
    )) is None by {
        assert((Seq::empty() + input.subrange(0, j)).len() == j);
    }
    lemma_run_plain(input, 0, opts, Phase::Start, Seq::empty(), i);
    assert((Seq::empty() + input.subrange(0, i)).len() == i);
}

} // verus!
