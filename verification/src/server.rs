//! Model-service connection settings: base URL, bearer token, and mutual
//! TLS material, held in an explicit configuration object.

use vstd::prelude::*;
use crate::strutil::spec_digits;
use crate::strutil::u64_to_string;

verus! {

/// Paths of the client certificate material for mutual TLS.
#[derive(Debug, Clone)]
pub struct MtlsConfig {
    pub cert: String,
    pub key: String,
    pub ca: Option<String>,
}

impl Default for MtlsConfig {
    /// Empty paths and no certificate authority.
    fn default() -> (r: Self)
        ensures
            r.cert@ == Seq::<char>::empty(),
            r.key@ == Seq::<char>::empty(),
            r.ca is None,
    {
        MtlsConfig { cert: String::new(), key: String::new(), ca: None }
    }
}

/// A host with its trailing slashes removed.
pub open spec fn spec_trim_end_slashes(s: Seq<char>) -> Seq<char>
    decreases s.len(),
{
    if s.len() > 0 && s.last() == '/' {
        spec_trim_end_slashes(s.drop_last())
    } else {
        s
    }
}

/// Where the model service lives and how to authenticate to it.
pub struct ServerConfig {
    pub base_url: String,
    pub token: Option<String>,
    pub mtls: Option<MtlsConfig>,
}

impl ServerConfig {
    /// The local default service, with no token and no mutual TLS.
    pub fn new() -> (r: Self)
        ensures
            r.base_url@ == "http://127.0.0.1:11434"@,
            r.token is None,
            r.mtls is None,
    {
        ServerConfig { base_url: String::from_str("http://127.0.0.1:11434"), token: None, mtls: None }
    }

    /// Point at another service: the base URL is the host, trailing
    /// slashes dropped, joined with the port; token and TLS material are
    /// replaced.
    pub fn set_server(
        &mut self,
        host: String,
        port: u16,
        token: Option<String>,
        mtls: Option<MtlsConfig>,
    )
        ensures
            final(self).base_url@ == spec_trim_end_slashes(host@) + ":"@ + spec_digits(
                port as nat,
            ),
            final(self).token == token,
            final(self).mtls == mtls,
    {
        let n = host.as_str().unicode_len();
        let mut end = n;
        proof {
            assert(host@.subrange(0, n as int) =~= host@);
        }
        while end > 0 && host.as_str().get_char(end - 1) == '/'
            invariant
                end <= n,
                n == host@.len(),
                spec_trim_end_slashes(host@) == spec_trim_end_slashes(
                    host@.subrange(0, end as int),
                ),
            decreases end,
        {
            proof {
                assert(host@.subrange(0, end as int).drop_last() =~= host@.subrange(0, end - 1));
            }
            end = end - 1;
        }
        proof {
            assert(spec_trim_end_slashes(host@.subrange(0, end as int)) == host@.subrange(
                0,
                end as int,
            ));
        }
        let mut base = host.as_str().substring_char(0, end).to_owned();
        base.append(":");
        let digits = u64_to_string(port as u64);
        base.append(digits.as_str());
        self.base_url = base;
        self.token = token;
        self.mtls = mtls;
    }

    /// The configured base URL.
    pub fn base_url(&self) -> (r: String)
        ensures
            r@ == self.base_url@,
    {
        self.base_url.clone()
    }

    /// The configured bearer token, when one is set.
    pub fn bearer_token(&self) -> (r: Option<String>)
        ensures
            match r {
                Some(t) => self.token is Some && t@ == self.token.unwrap()@,
                None => self.token is None,
            },
    {
        match &self.token {
            Some(t) => Some(t.clone()),
            None => None,
        }
    }
}

} // verus!
