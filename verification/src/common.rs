use vstd::prelude::*;

use crate::error::Error;
use crate::text::{find_char, lemma_find_char_at, lemma_find_char_none, spec_trim, str_eq, trim};

verus! {

#[derive(Debug, PartialEq, Eq, Structural, Clone, Copy)]
pub enum HttpVersion {
    Http1_0,
    Http1_1,
    Http2_0,
}

/// The exact literal that formats a version.
pub open spec fn version_str(v: HttpVersion) -> Seq<char> {
    match v {
        HttpVersion::Http1_0 => "HTTP/1.0"@,
        HttpVersion::Http1_1 => "HTTP/1.1"@,
        HttpVersion::Http2_0 => "HTTP/2.0"@,
    }
}

/// The version a string denotes, if any: an exact literal match.
pub open spec fn spec_parse_version(s: Seq<char>) -> Option<HttpVersion> {
    if s == "HTTP/1.0"@ {
        Some(HttpVersion::Http1_0)
    } else if s == "HTTP/1.1"@ {
        Some(HttpVersion::Http1_1)
    } else if s == "HTTP/2.0"@ {
        Some(HttpVersion::Http2_0)
    } else {
        None
    }
}

impl HttpVersion {
    pub fn parse(data: &str) -> (r: Result<HttpVersion, Error>)
        ensures
            match r {
                Ok(v) => spec_parse_version(data@) == Some(v),
                Err(e) => spec_parse_version(data@) is None && e == Error::InvalidHttpVersion,
            },
    {
        if str_eq(data, "HTTP/1.0") {
            Ok(HttpVersion::Http1_0)
        } else if str_eq(data, "HTTP/1.1") {
            Ok(HttpVersion::Http1_1)
        } else if str_eq(data, "HTTP/2.0") {
            Ok(HttpVersion::Http2_0)
        } else {
            Err(Error::InvalidHttpVersion)
        }
    }

    /// The exact literal for this version, the inverse of `parse`.
    pub fn to_str(&self) -> (r: &'static str)
        ensures
            r@ == version_str(*self),
    {
        match self {
            HttpVersion::Http1_0 => "HTTP/1.0",
            HttpVersion::Http1_1 => "HTTP/1.1",
            HttpVersion::Http2_0 => "HTTP/2.0",
        }
    }
}

/// Formatting a version and parsing it back returns the same version.
pub proof fn lemma_version_format_parse(v: HttpVersion)
    ensures
        spec_parse_version(version_str(v)) == Some(v),
{
    reveal_strlit("HTTP/1.0");
    reveal_strlit("HTTP/1.1");
    reveal_strlit("HTTP/2.0");
    match v {
        HttpVersion::Http1_0 => {
            assert(spec_parse_version("HTTP/1.0"@) == Some(HttpVersion::Http1_0));
        },
        HttpVersion::Http1_1 => {
            assert("HTTP/1.1"@[7] != "HTTP/1.0"@[7]);
            assert(spec_parse_version("HTTP/1.1"@) == Some(HttpVersion::Http1_1));
        },
        HttpVersion::Http2_0 => {
            assert("HTTP/2.0"@[5] != "HTTP/1.0"@[5]);
            assert("HTTP/2.0"@[5] != "HTTP/1.1"@[5]);
            assert(spec_parse_version("HTTP/2.0"@) == Some(HttpVersion::Http2_0));
        },
    }
}

/// Parsing a version string and formatting the result returns the same string.
pub proof fn lemma_version_parse_format(s: Seq<char>)
    ensures
        spec_parse_version(s) matches Some(v) ==> version_str(v) == s,
{
}

/// One header entry per pair, later entries overriding earlier ones
/// with the same key.
pub open spec fn spec_headers_map(ps: Seq<(Seq<char>, Seq<char>)>) -> Map<Seq<char>, Seq<char>>
    decreases ps.len(),
{
    if ps.len() == 0 {
        Map::empty()
    } else {
        spec_headers_map(ps.drop_last()).insert(ps.last().0, ps.last().1)
    }
}

/// The header fields of a message, in insertion order; last write wins
/// on a duplicated key.
#[derive(Debug, PartialEq)]
pub struct Headers {
    pub headers: Vec<(String, String)>,
}

impl View for Headers {
    type V = Map<Seq<char>, Seq<char>>;

    open spec fn view(&self) -> Map<Seq<char>, Seq<char>> {
        spec_headers_map(self.entries())
    }
}

impl Headers {
    /// The entries in order, as sequences of characters.
    pub open spec fn entries(&self) -> Seq<(Seq<char>, Seq<char>)> {
        self.headers@.map_values(|p: (String, String)| (p.0@, p.1@))
    }

    pub fn new(headers: Vec<(String, String)>) -> (r: Headers)
        ensures
            r.headers == headers,
    {
        Headers { headers }
    }

    /// Adds a field, overriding any earlier value of the same key.
    pub fn insert(&mut self, key: String, value: String)
        ensures
            final(self)@ == old(self)@.insert(key@, value@),
            final(self).entries() == old(self).entries().push((key@, value@)),
    {
        let ghost before = self.entries();
        self.headers.push((key, value));
        proof {
            assert(self.entries() =~= before.push((key@, value@)));
            assert(self.entries().drop_last() =~= before);
        }
    }

    /// Looks a key up; the latest entry for the key decides.
    pub fn get<'a>(&'a self, key: &str) -> (r: Option<&'a String>)
        ensures
            match r {
                Some(v) => self@.contains_key(key@) && v@ == self@[key@],
                None => !self@.contains_key(key@),
            },
    {
        let n = self.headers.len();
        proof {
            assert(self.entries().subrange(0, n as int) =~= self.entries());
        }
        let mut j: usize = n;
        while j > 0
            invariant
                0 <= j <= n,
                n == self.headers@.len(),
                self@.contains_key(key@) == spec_headers_map(
                    self.entries().subrange(0, j as int),
                ).contains_key(key@),
                self@.contains_key(key@) ==> self@[key@] == spec_headers_map(
                    self.entries().subrange(0, j as int),
                )[key@],
            decreases j,
        {
            let p = &self.headers[j - 1];
            proof {
                assert(self.entries().subrange(0, j as int).drop_last() =~= self.entries().subrange(
                    0,
                    j - 1,
                ));
                assert(self.entries().subrange(0, j as int).last() == (p.0@, p.1@));
            }
            if str_eq(p.0.as_str(), key) {
                return Some(&p.1);
            }
            j = j - 1;
        }
        proof {
            assert(self.entries().subrange(0, 0) =~= Seq::<(Seq<char>, Seq<char>)>::empty());
        }
        None
    }

    /// A line is a header exactly when a colon splits it into a non-empty
    /// key and a non-empty value; both sides are then trimmed.
    pub open spec fn spec_parse_header(s: Seq<char>) -> Option<(Seq<char>, Seq<char>)> {
        match find_char(s, ':') {
            None => None,
            Some(i) => {
                let key = s.subrange(0, i);
                let val = s.subrange(i + 1, s.len() as int);
                if key.len() == 0 || val.len() == 0 {
                    None
                } else {
                    Some((spec_trim(key), spec_trim(val)))
                }
            },
        }
    }

    pub fn parse_header<'a>(data: &'a str) -> (r: Result<(&'a str, &'a str), Error>)
        ensures
            match r {
                Ok((k, v)) => Self::spec_parse_header(data@) == Some((k@, v@)),
                Err(e) => Self::spec_parse_header(data@) is None && e == Error::InvalidHeader,
            },
    {
        let n = data.unicode_len();
        let mut i: usize = 0;
        while i < n && data.get_char(i) != ':'
            invariant
                0 <= i <= n,
                n == data@.len(),
                forall|k: int| 0 <= k < i ==> data@[k] != ':',
            decreases n - i,
        {
            i = i + 1;
        }
        if i == n {
            proof {
                lemma_find_char_none(data@, ':');
            }
            return Err(Error::InvalidHeader);
        }
        proof {
            lemma_find_char_at(data@, ':', i as int);
        }
        if i == 0 || i + 1 == n {
            return Err(Error::InvalidHeader);
        }
        let key = data.substring_char(0, i);
        let val = data.substring_char(i + 1, n);
        Ok((trim(key), trim(val)))
    }
}

} // verus!
