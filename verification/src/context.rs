//! The application context: which environment the process runs in and
//! its server id, resolved once at startup from explicitly passed
//! values. The resolution rules are pure and verified; reading the
//! process environment is the caller's concern.

use vstd::prelude::*;
use crate::text::{contains_seq, contains_substr, lower_chars, str_eq_ignore_ascii_case};

verus! {

/// Why a context could not be resolved.
#[derive(Debug, Clone, PartialEq, Eq)]
pub enum ContextError {
    InvalidEnvironment(String),
    MissingEnvironment(String),
    ConflictingEnvironmentVariables,
}

/// The deployment environment.
#[derive(Debug, Clone, PartialEq, Eq, Structural)]
pub enum Environment {
    Dev,
    Live,
    Staging,
    Production,
}

/// The environment named by a string, compared without regard to ASCII
/// case; `dev` and `local` both name the development environment.
pub open spec fn environment_of_chars(s: Seq<char>) -> Option<Environment> {
    if lower_chars(s) == "live"@ {
        Some(Environment::Live)
    } else if lower_chars(s) == "stg"@ {
        Some(Environment::Staging)
    } else if lower_chars(s) == "prod"@ {
        Some(Environment::Production)
    } else if lower_chars(s) == "dev"@ || lower_chars(s) == "local"@ {
        Some(Environment::Dev)
    } else {
        None
    }
}

impl Environment {
    /// The canonical short name of the environment.
    pub fn as_str(&self) -> (r: &'static str)
        ensures
            r@ == self.chars(),
    {
        match self {
            Environment::Dev => "dev",
            Environment::Live => "live",
            Environment::Staging => "stg",
            Environment::Production => "prod",
        }
    }

    /// The canonical short name, as characters.
    pub open spec fn chars(&self) -> Seq<char> {
        match self {
            Environment::Dev => "dev"@,
            Environment::Live => "live"@,
            Environment::Staging => "stg"@,
            Environment::Production => "prod"@,
        }
    }

    /// Only the development environment counts as local.
    pub fn is_local(&self) -> (r: bool)
        ensures
            r <==> *self == Environment::Dev,
    {
        match self {
            Environment::Dev => true,
            _ => false,
        }
    }

    /// The complement of [`Environment::is_local`].
    pub fn is_not_local(&self) -> (r: bool)
        ensures
            r <==> *self != Environment::Dev,
    {
        !self.is_local()
    }

    /// Parses an environment name, ASCII-case-insensitively.
    pub fn parse(s: &str) -> (r: Result<Environment, ContextError>)
        ensures
            environment_of_chars(s@) matches Some(e) ==> r == Ok::<Environment, ContextError>(e),
            r is Err <==> environment_of_chars(s@) is None,
            r matches Err(e) ==> e is InvalidEnvironment,
    {
        proof {
            reveal_strlit("live");
            reveal_strlit("stg");
            reveal_strlit("prod");
            reveal_strlit("dev");
            reveal_strlit("local");
            assert(lower_chars("live"@) =~= "live"@);
            assert(lower_chars("stg"@) =~= "stg"@);
            assert(lower_chars("prod"@) =~= "prod"@);
            assert(lower_chars("dev"@) =~= "dev"@);
            assert(lower_chars("local"@) =~= "local"@);
        }
        if str_eq_ignore_ascii_case(s, "live") {
            Ok(Environment::Live)
        } else if str_eq_ignore_ascii_case(s, "stg") {
            Ok(Environment::Staging)
        } else if str_eq_ignore_ascii_case(s, "prod") {
            Ok(Environment::Production)
        } else if str_eq_ignore_ascii_case(s, "dev") || str_eq_ignore_ascii_case(s, "local") {
            Ok(Environment::Dev)
        } else {
            Err(ContextError::InvalidEnvironment(String::from_str("unknown environment")))
        }
    }
}

/// The resolved application context.
#[derive(Debug, Clone)]
pub struct AppContext {
    pub server_id: String,
    pub environment: Environment,
}

impl AppContext {
    /// The environment the context was resolved for.
    pub fn environment(&self) -> (r: Environment)
        ensures
            r == self.environment,
    {
        match self.environment {
            Environment::Dev => Environment::Dev,
            Environment::Live => Environment::Live,
            Environment::Staging => Environment::Staging,
            Environment::Production => Environment::Production,
        }
    }

    /// Resolves the context from the two configuration values and a
    /// fresh server id: the environment name must be present and known;
    /// the database locator must be present; and outside the local
    /// environment the locator must mention the environment name, else
    /// the two variables conflict.
    pub fn resolve(env_var: Option<String>, database_env: Option<String>, server_id: String) -> (r:
        Result<AppContext, ContextError>)
        ensures
            env_var is None ==> (r matches Err(e) && e is MissingEnvironment),
            env_var matches Some(ev) && environment_of_chars(ev@) is None ==> (r matches Err(e)
                && e is InvalidEnvironment),
            env_var matches Some(ev) && environment_of_chars(ev@) is Some && database_env is None
                ==> (r matches Err(e) && e is MissingEnvironment),
            (env_var is Some && environment_of_chars(env_var.unwrap()@) is Some && database_env
                is Some) ==> {
                let ev = env_var.unwrap();
                let env = environment_of_chars(ev@).unwrap();
                let db = database_env.unwrap();
                let conflict = env != Environment::Dev && (db@.len() == 0 || !contains_seq(
                    db@,
                    ev@,
                ));
                if conflict {
                    r == Err::<AppContext, ContextError>(
                        ContextError::ConflictingEnvironmentVariables,
                    )
                } else {
                    r matches Ok(c) && c.environment == env && c.server_id == server_id
                }
            },
    {
        let ev = match env_var {
            Some(v) => v,
            None => {
                return Err(
                    ContextError::MissingEnvironment(
                        String::from_str("environment variable not set"),
                    ),
                );
            },
        };
        let env = match Environment::parse(ev.as_str()) {
            Ok(e) => e,
            Err(e) => {
                return Err(e);
            },
        };
        let db = match database_env {
            Some(v) => v,
            None => {
                return Err(
                    ContextError::MissingEnvironment(
                        String::from_str("database environment variable not set"),
                    ),
                );
            },
        };
        // every database locator must mention its environment's name,
        // except in the local environment
        if !env.is_local() && (db.as_str().is_empty() || !contains_substr(db.as_str(), ev.as_str()))
        {
            return Err(ContextError::ConflictingEnvironmentVariables);
        }
        Ok(AppContext { environment: env, server_id })
    }
}

} // verus!
