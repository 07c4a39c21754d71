use vstd::prelude::*;

use crate::error::Error;
use crate::request::Authority;
use crate::text::dec_str;
use crate::text::usize_to_string;

verus! {

/// The command-line arguments of the tunnelling client.
#[derive(Debug)]
pub struct Args {
    pub proxy: String,
    pub api_key: String,
    pub port: u16,
    pub tags: Vec<String>,
}

/// A client that opens one connection to a fixed host and port.
pub struct HttpClient {
    pub host: Authority,
}

impl HttpClient {
    pub fn new(host: &Authority) -> (r: Self)
        ensures
            r.host == *host,
    {
        let copy = Authority { domain: host.domain.clone(), port: host.port };
        proof {
            assert(copy == *host);
        }
        HttpClient { host: copy }
    }

    /// The `host:port` string the client dials; an authority without a
    /// port cannot be dialled.
    pub fn dial_address(&self) -> (r: Result<String, Error>)
        ensures
            match r {
                Ok(s) => self.host.port matches Some(p) && s@ == self.host.domain@ + ":"@ + dec_str(
                    p as nat,
                ),
                Err(e) => self.host.port is None && e == Error::MissingPort,
            },
    {
        match self.host.port {
            Some(p) => {
                let mut s = self.host.domain.clone();
                s.append(":");
                let ps = usize_to_string(p as usize);
                s.append(ps.as_str());
                proof {
                    assert(s@ =~= self.host.domain@ + ":"@ + dec_str(p as nat));
                }
                Ok(s)
            },
            None => Err(Error::MissingPort),
        }
    }
}

} // verus!
