//! The settings of the application, as far as they decide anything.

use vstd::prelude::*;
use vstd::utf8::encode_utf8;

verus! {

/// All settings.
pub struct Settings {
    pub application: ApplicationSettings,
    pub database: DatabaseSettings,
    pub eventstore: EventStoreSettings,
}

/// The settings of the web server.
#[derive(Debug, PartialEq, Eq)]
pub struct ApplicationSettings {
    pub port: u16,
    pub host: String,
    pub domain: String,
    pub secure: bool,
}

/// The settings of the event store client.
#[derive(Debug, PartialEq, Eq)]
pub struct EventStoreSettings {
    pub url: String,
}

/// The settings of the database connection.
pub struct DatabaseSettings {
    pub username: String,
    pub password: String,
    pub port: u16,
    pub host: String,
    pub database_name: String,
    /// Determine if we demand the connection to be encrypted
    pub require_ssl: bool,
}

/// How a database connection treats encryption.
#[derive(Clone, Copy, Debug, PartialEq, Eq, Structural)]
pub enum SslMode {
    /// Try an encrypted connection, fall back to an unencrypted one.
    Prefer,
    /// Only an encrypted connection will do.
    Require,
}

impl DatabaseSettings {
    /// The encryption that the settings ask for.
    pub fn ssl_mode(&self) -> (mode: SslMode)
        ensures
            mode == if self.require_ssl {
                SslMode::Require
            } else {
                SslMode::Prefer
            },
    {
        if self.require_ssl {
            SslMode::Require
        } else {
            SslMode::Prefer
        }
    }
}

impl ApplicationSettings {
    /// Whether a request from `origin` may read the responses: it may where
    /// the origin ends with the domain of the application.
    pub fn allows_origin(&self, origin: &[u8]) -> (allowed: bool)
        ensures
            allowed == encode_utf8(self.domain@).is_suffix_of(origin@),
    {
        let domain = self.domain.as_str().as_bytes();
        if domain.len() > origin.len() {
            return false;
        }
        let offset = origin.len() - domain.len();
        let mut i: usize = 0;
        while i < domain.len()
            invariant
                i <= domain.len(),
                offset + domain.len() == origin.len(),
                domain@ == encode_utf8(self.domain@),
                forall|k: int| 0 <= k < i ==> origin@[offset + k] == domain@[k],
            decreases domain.len() - i,
        {
            if origin[offset + i] != domain[i] {
                assert(origin@.subrange(offset as int, origin@.len() as int)[i as int] != domain@[i as int]);
                return false;
            }
            i += 1;
        }
        assert(origin@.subrange(offset as int, origin@.len() as int) =~= domain@);
        true
    }
}

/// The possible runtime environment for our application
#[derive(Clone, Copy, Debug, PartialEq, Eq, Structural)]
pub enum Environment {
    Local,
    Docker,
    Production,
}

/// The name of an environment.
pub open spec fn environment_name(environment: Environment) -> Seq<char> {
    match environment {
        Environment::Local => "local"@,
        Environment::Docker => "docker"@,
        Environment::Production => "production"@,
    }
}

/// The environment with the name `name`, or the message that refuses a name
/// of no environment.
pub open spec fn environment_of(name: Seq<char>) -> Result<Environment, Seq<char>> {
    if name == "local"@ {
        Ok(Environment::Local)
    } else if name == "docker"@ {
        Ok(Environment::Docker)
    } else if name == "production"@ {
        Ok(Environment::Production)
    } else {
        Err(name + " is not a supported environment. Use either `local` or `production`."@)
    }
}

/// `text` in lower case, as `str::to_lowercase` gives it.
pub uninterp spec fn lowercase(text: Seq<char>) -> Seq<char>;

/// Puts a string in lower case with `str::to_lowercase`. Trusted: the result
/// is a function of the text alone.
#[verifier::external_body]
fn to_lowercase(text: &str) -> (lower: String)
    ensures
        lower@ == lowercase(text@),
{
    text.to_lowercase()
}

impl Environment {
    /// The name of the environment.
    pub fn as_str(&self) -> (name: &'static str)
        ensures
            name@ == environment_name(*self),
    {
        match self {
            Environment::Local => "local",
            Environment::Docker => "docker",
            Environment::Production => "production",
        }
    }

    /// The environment that `value` names, whatever its case.
    pub fn try_from(value: String) -> (environment: Result<Environment, String>)
        ensures
            match environment {
                Ok(e) => environment_of(lowercase(value@)) == Ok::<Environment, Seq<char>>(e),
                Err(message) => environment_of(lowercase(value@)) == Err::<
                    Environment,
                    Seq<char>,
                >(message@),
            },
    {
        Environment::from_name(to_lowercase(value.as_str()))
    }

    /// The environment with the name `lower`. A name of no environment is
    /// refused with a message that begins with the name.
    pub fn from_name(lower: String) -> (environment: Result<Environment, String>)
        ensures
            match environment {
                Ok(e) => environment_of(lower@) == Ok::<Environment, Seq<char>>(e),
                Err(message) => environment_of(lower@) == Err::<Environment, Seq<char>>(message@),
            },
    {
        if lower == "local".to_owned() {
            Ok(Environment::Local)
        } else if lower == "docker".to_owned() {
            Ok(Environment::Docker)
        } else if lower == "production".to_owned() {
            Ok(Environment::Production)
        } else {
            let mut message = lower;
            message.append(" is not a supported environment. Use either `local` or `production`.");
            Err(message)
        }
    }
}

} // verus!
