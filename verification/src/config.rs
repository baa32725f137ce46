//! Settings the service runs under.
//!
//! Loading these from files or the environment is the boundary's business;
//! here stand the validated shapes themselves, their defaults, and the pure
//! derivations on them — which environment a name denotes, and what
//! connection string a telemetry endpoint setting amounts to.

use vstd::prelude::*;

verus! {

use vstd::string::{StrSliceExecFns, StringExecFns};
use crate::ascii::{bytes_as_chars, bytes_to_string, lemma_ascii_encode};
use crate::decimal::dec_digits;

/// The deployment environment a configuration name denotes.
#[derive(PartialEq, Eq, Structural, Clone, Copy, Debug)]
pub enum Environment {
    /// Local development.
    Dev,
    /// Test runs.
    Test,
    /// Production; the default when nothing is named.
    Prod,
}

impl Environment {
    /// The environment's configuration name.
    pub fn as_ref(&self) -> (r: &'static str)
        ensures
            self is Dev ==> r@ == "dev"@,
            self is Test ==> r@ == "test"@,
            self is Prod ==> r@ == "prod"@,
    {
        match self {
            Environment::Dev => "dev",
            Environment::Test => "test",
            Environment::Prod => "prod",
        }
    }

    /// Reads an environment from its configuration name: exactly `dev`,
    /// `test` and `prod` are accepted.
    pub fn try_from(value: &str) -> (r: Option<Environment>)
        ensures
            r == Some(Environment::Dev) <==> value@ == "dev"@,
            r == Some(Environment::Test) <==> value@ == "test"@,
            r == Some(Environment::Prod) <==> value@ == "prod"@,
            r is None <==> (value@ != "dev"@ && value@ != "test"@ && value@ != "prod"@),
    {
        proof {
            reveal_strlit("dev");
            reveal_strlit("test");
            reveal_strlit("prod");
            assert("dev"@.len() == 3 && "test"@.len() == 4 && "prod"@.len() == 4);
            assert("test"@ != "prod"@) by {
                if "test"@ == "prod"@ {
                    assert("test"@[0] == "prod"@[0]);
                }
            }
        }
        if crate::ascii::str_eq(value, "dev") {
            Some(Environment::Dev)
        } else if crate::ascii::str_eq(value, "test") {
            Some(Environment::Test)
        } else if crate::ascii::str_eq(value, "prod") {
            Some(Environment::Prod)
        } else {
            None
        }
    }
}

impl Default for Environment {
    /// Production, so that nothing defaults to a permissive setup.
    fn default() -> (r: Environment)
        ensures
            r == Environment::Prod,
    {
        Environment::Prod
    }
}

/// The transport scheme a URL opens with.
#[derive(PartialEq, Eq, Structural, Clone, Copy, Debug)]
pub enum Scheme {
    /// Plain HTTP.
    Http,
    /// HTTP over TLS; the default.
    Https,
}

impl Scheme {
    /// The scheme's text.
    pub fn as_ref(&self) -> (r: &'static str)
        ensures
            self is Http ==> r@ == "http"@,
            self is Https ==> r@ == "https"@,
    {
        match self {
            Scheme::Http => "http",
            Scheme::Https => "https",
        }
    }
}

impl Default for Scheme {
    /// TLS, so that nothing defaults to cleartext.
    fn default() -> (r: Scheme)
        ensures
            r == Scheme::Https,
    {
        Scheme::Https
    }
}

/// Where and how the application listens.
pub struct ApplicationSettings {
    /// The port to bind.
    pub port: u16,
    /// The host address to bind.
    pub host: String,
    /// The scheme the application is served under.
    pub scheme: Scheme,
    /// The environment the application runs in.
    pub environment: Environment,
    /// The public domain name.
    pub domain: String,
}

impl Default for ApplicationSettings {
    /// Port 80 on the loopback address, TLS scheme, production environment,
    /// empty domain.
    fn default() -> (r: ApplicationSettings)
        ensures
            r.port == 80,
            r.host@ == "127.0.0.1"@,
            r.scheme == Scheme::Https,
            r.environment == Environment::Prod,
            r.domain@.len() == 0,
    {
        proof {
            reveal_strlit("");
        }
        ApplicationSettings {
            port: 80,
            host: "127.0.0.1".to_owned(),
            scheme: Scheme::Https,
            environment: Environment::Prod,
            domain: "".to_owned(),
        }
    }
}

/// What the token layer is configured with.
pub struct AuthSettings {
    /// The process-wide signing secret, immutable after start.
    pub jwtsecret: String,
    /// How long an issued token lives, in seconds.
    pub jwt_expires_in_secs: u64,
    /// The max-age advertised for the credential cookie, in minutes.
    pub jwt_max_age: i32,
}

/// Where the telemetry collector listens.
pub struct JaegerSettings {
    /// The collector's port.
    pub port: u16,
    /// The collector's host name.
    pub host: String,
    /// The scheme the collector is reached under.
    pub scheme: Scheme,
}

impl JaegerSettings {
    /// The collector endpoint as one URL: scheme, `://`, host, `:`, port in
    /// decimal.
    pub fn connection_string(&self) -> (r: String)
        ensures
            r@ == self.scheme.as_ref_spec() + "://"@ + self.host@ + ":"@ + bytes_as_chars(
                dec_digits(self.port as nat),
            ),
    {
        let mut r = self.scheme.as_ref().to_owned();
        r.append("://");
        r.append(self.host.as_str());
        r.append(":");
        let digits = crate::decimal::u64_to_dec(self.port as u64);
        let ghost dv = digits@;
        proof {
            assert(dv == dec_digits(self.port as nat));
            lemma_digits_ascii(self.port as nat);
            lemma_ascii_encode(dv);
        }
        let port_text = match bytes_to_string(digits) {
            Some(t) => t,
            None => {
                proof {
                    assert(false);
                }
                vstd::pervasive::unreached()
            },
        };
        proof {
            broadcast use vstd::utf8::encode_utf8_decode_utf8;

            assert(vstd::utf8::encode_utf8(bytes_as_chars(dv)) == dv);
            assert(vstd::utf8::decode_utf8(vstd::utf8::encode_utf8(port_text@)) == port_text@);
            assert(vstd::utf8::decode_utf8(vstd::utf8::encode_utf8(bytes_as_chars(dv)))
                == bytes_as_chars(dv));
            assert(port_text@ == bytes_as_chars(dv));
        }
        r.append(port_text.as_str());
        r
    }
}

impl Default for JaegerSettings {
    /// The conventional collector endpoint: TLS to localhost on port 4317.
    fn default() -> (r: JaegerSettings)
        ensures
            r.port == 4317,
            r.host@ == "localhost"@,
            r.scheme == Scheme::Https,
    {
        JaegerSettings { port: 4317, host: "localhost".to_owned(), scheme: Scheme::Https }
    }
}

impl Scheme {
    /// The characters `as_ref` answers, as a spec-level value.
    pub open spec fn as_ref_spec(&self) -> Seq<char> {
        match self {
            Scheme::Http => "http"@,
            Scheme::Https => "https"@,
        }
    }
}

/// Every byte of a decimal form is an ASCII digit.
proof fn lemma_digits_ascii(n: nat)
    ensures
        crate::ascii::ascii_bytes(dec_digits(n)),
{
    crate::decimal::lemma_dec_digits_canonical(n);
    assert forall|i: int| 0 <= i < dec_digits(n).len() implies (#[trigger] dec_digits(n)[i])
        < 0x80 by {
        assert(crate::decimal::is_digit(dec_digits(n)[i]));
    }
}

/// The environment variable that names the application environment.
pub fn get_app_env_key() -> (r: String)
    ensures
        r@ == "TRACK__APPLICATION_ENVIRONMENT"@,
{
    "TRACK__APPLICATION_ENVIRONMENT".to_owned()
}

} // verus!
