//! Startup configuration: the command-line shape and the credential record,
//! with the normalization of an optionally `0x`-prefixed secret key. Reading
//! the credential file and decoding its JSON happen at the trust boundary
//! around the library.
use vstd::prelude::*;
use vstd::string::{StrSliceExecFns, StringExecFns};

verus! {

/// The command line: the path of the credential file.
pub struct Cli {
    pub creds: String,
}

/// The credential record: a hex-encoded private key, optionally prefixed
/// with `0x`.
pub struct Creds {
    pub secret_key: String,
}

/// A secret key with an optional `0x` prefix stripped.
pub open spec fn spec_stripped_key(s: Seq<char>) -> Seq<char> {
    if s.len() >= 2 && s[0] == '0' && s[1] == 'x' {
        s.skip(2)
    } else {
        s
    }
}

impl Creds {
    /// Strip the optional `0x` prefix from the secret key, leaving raw hex
    /// for the key parser.
    pub fn normalize(&mut self)
        ensures
            final(self).secret_key@ == spec_stripped_key(old(self).secret_key@),
    {
        let n = self.secret_key.as_str().unicode_len();
        let stripped: Option<String> = if n >= 2 && self.secret_key.as_str().get_char(0) == '0'
            && self.secret_key.as_str().get_char(1) == 'x' {
            let rest = self.secret_key.as_str().substring_char(2, n);
            Some(String::from_str(rest))
        } else {
            None
        };
        if let Some(key) = stripped {
            self.secret_key = key;
        }
    }
}

} // verus!
