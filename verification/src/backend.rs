//! The backends, and how an identifier names one of them.

use crate::error::{Error, ErrorView};
use crate::text::{chars_of, find_first, first_index, is_first, lemma_first_index, prefix_is};
use vstd::prelude::*;
use vstd::string::{StrSliceExecFns, StringExecFns};

verus! {

/// One of the four database engines.
#[derive(Clone, Copy, Debug, PartialEq, Eq, Structural)]
pub enum Backend {
    /// The embedded engine, which keeps a database in one file.
    Sqlite,
    MySql,
    Postgres,
    Mssql,
}

/// The scheme of an identifier: the text before its first `:`. An identifier without a `:`
/// has none.
pub open spec fn scheme_of(url: Seq<char>) -> Option<Seq<char>> {
    if url.contains(':') {
        Some(url.take(first_index(url, ':')))
    } else {
        None
    }
}

/// What follows the first `:` of an identifier.
pub open spec fn after_scheme(url: Seq<char>) -> Seq<char>
    recommends
        url.contains(':'),
{
    url.skip(first_index(url, ':') + 1)
}

/// The backend that a scheme names.
pub open spec fn backend_named(scheme: Seq<char>) -> Option<Backend> {
    if scheme == "sqlite"@ {
        Some(Backend::Sqlite)
    } else if scheme == "mysql"@ {
        Some(Backend::MySql)
    } else if scheme == "postgres"@ {
        Some(Backend::Postgres)
    } else if scheme == "mssql"@ {
        Some(Backend::Mssql)
    } else {
        None
    }
}

/// The backend that an identifier names by its scheme.
pub open spec fn backend_of(url: Seq<char>) -> Option<Backend> {
    match scheme_of(url) {
        Some(scheme) => backend_named(scheme),
        None => None,
    }
}

impl Backend {
    /// Reads the backend off an identifier's scheme. An identifier without a `:`, or with a
    /// scheme that names no backend, is refused as `InvalidDbUrl` with the identifier.
    pub fn from_url(url: &str) -> (r: Result<Backend, Error>)
        ensures
            match r {
                Ok(b) => backend_of(url@) == Some(b),
                Err(e) => backend_of(url@) is None && e@ == ErrorView::InvalidDbUrl(url@),
            },
    {
        let chars = chars_of(url);
        match find_first(&chars, ':') {
            None => Err(Error::InvalidDbUrl(String::from_str(url))),
            Some(i) => {
                proof {
                    lemma_first_index(url@, ':', i as int);
                }
                if prefix_is(&chars, i, "sqlite") {
                    Ok(Backend::Sqlite)
                } else if prefix_is(&chars, i, "mysql") {
                    Ok(Backend::MySql)
                } else if prefix_is(&chars, i, "postgres") {
                    Ok(Backend::Postgres)
                } else if prefix_is(&chars, i, "mssql") {
                    Ok(Backend::Mssql)
                } else {
                    Err(Error::InvalidDbUrl(String::from_str(url)))
                }
            },
        }
    }

    /// Whether the driver can be asked if a database exists and told to create it. The one
    /// backend that cannot has to find its database in place.
    pub fn creates_database(&self) -> (r: bool)
        ensures
            r == (*self != Backend::Mssql),
    {
        match self {
            Backend::Mssql => false,
            _ => true,
        }
    }

    /// Whether the driver has a migration engine for this backend. Where it has none,
    /// migrations cannot be applied.
    pub fn migrates(&self) -> (r: bool)
        ensures
            r == (*self != Backend::Mssql),
    {
        match self {
            Backend::Mssql => false,
            _ => true,
        }
    }

    /// Whether the driver takes a value in its structured form, where the value is neither
    /// null, text nor a number.
    pub fn binds_structured(&self) -> (r: bool)
        ensures
            r == (*self != Backend::Mssql),
    {
        match self {
            Backend::Mssql => false,
            _ => true,
        }
    }
}

/// A directory and a path below it, joined: one `/` goes between them unless the directory
/// is empty or already ends in one, and a path that starts with `/` stands alone.
///
/// This is the rule of paths that are separated by `/` and have no drive prefix. Where the
/// platform separates paths otherwise or knows drive prefixes, its own joining differs from
/// this one.
pub open spec fn joined(dir: Seq<char>, path: Seq<char>) -> Seq<char> {
    if path.len() > 0 && path[0] == '/' {
        path
    } else if dir.len() == 0 || dir.last() == '/' {
        dir + path
    } else {
        dir + seq!['/'] + path
    }
}

/// The connection string of the embedded backend for an identifier, with the file's path
/// resolved against the application's directory.
pub open spec fn mapped_path(app_path: Seq<char>, connection_string: Seq<char>) -> Seq<char> {
    "sqlite:"@ + joined(app_path, after_scheme(connection_string))
}

/// Resolves the path of an embedded database against the application's directory and gives
/// the connection string for it. The identifier has a scheme. The two are joined by the
/// rule of `/`-separated paths, on every platform.
pub fn path_mapper(app_path: &str, connection_string: &str) -> (r: String)
    requires
        connection_string@.contains(':'),
    ensures
        r@ == mapped_path(app_path@, connection_string@),
{
    let chars = chars_of(connection_string);
    let dir = chars_of(app_path);
    let found = find_first(&chars, ':');
    assert(found is Some);
    let colon = found.unwrap();
    assert(is_first(chars@, ':', colon as int));
    assert(colon < chars.len());
    proof {
        lemma_first_index(connection_string@, ':', colon as int);
    }
    let path = connection_string.substring_char(colon + 1, chars.len());
    assert(path@ == after_scheme(connection_string@));
    let mut out = String::from_str("sqlite:");
    let absolute = colon + 1 < chars.len() && chars[colon + 1] == '/';
    if absolute {
        assert(path@[0] == '/');
    } else {
        out.append(app_path);
        if dir.len() > 0 && dir[dir.len() - 1] != '/' {
            out.append("/");
            proof {
                reveal_strlit("/");
                assert("/"@ =~= seq!['/']);
            }
        }
    }
    out.append(path);
    proof {
        let d = app_path@;
        let p = path@;
        assert(("sqlite:"@ + d) + p =~= "sqlite:"@ + (d + p));
        assert((("sqlite:"@ + d) + seq!['/']) + p =~= "sqlite:"@ + (d + seq!['/'] + p));
    }
    out
}

/// What has to be done to open the database that an identifier names.
#[derive(Debug)]
pub struct ConnectPlan {
    /// The backend to connect to.
    pub backend: Backend,
    /// The connection string to hand to the driver.
    pub url: String,
    /// Whether the application's directory has to exist first.
    pub needs_app_dir: bool,
    /// Whether a missing database is to be created before connecting.
    pub create_if_missing: bool,
}

/// The connection string that the driver is given for an identifier.
pub open spec fn driver_url(backend: Backend, app_path: Seq<char>, conn_url: Seq<char>) -> Seq<
    char,
> {
    if backend == Backend::Sqlite {
        mapped_path(app_path, conn_url)
    } else {
        conn_url
    }
}

impl ConnectPlan {
    /// This is the plan for an identifier: the backend is the one that the scheme names,
    /// the embedded backend gets its file's path resolved against the application's
    /// directory, which has to exist, and every backend but the one that cannot be asked
    /// gets a missing database created.
    pub open spec fn is_for(self, conn_url: Seq<char>, app_path: Seq<char>) -> bool {
        &&& backend_of(conn_url) == Some(self.backend)
        &&& self.url@ == driver_url(self.backend, app_path, conn_url)
        &&& self.needs_app_dir == (self.backend == Backend::Sqlite)
        &&& self.create_if_missing == (self.backend != Backend::Mssql)
    }

    /// Plans the connection for an identifier: which backend, under which connection string,
    /// and what has to be there first. An identifier that names no backend is refused as
    /// `InvalidDbUrl`.
    pub fn for_url(conn_url: &str, app_path: &str) -> (r: Result<ConnectPlan, Error>)
        ensures
            match r {
                Ok(plan) => plan.is_for(conn_url@, app_path@),
                Err(e) => backend_of(conn_url@) is None && e@ == ErrorView::InvalidDbUrl(
                    conn_url@,
                ),
            },
    {
        match Backend::from_url(conn_url) {
            Err(e) => Err(e),
            Ok(backend) => {
                let url = match backend {
                    Backend::Sqlite => path_mapper(app_path, conn_url),
                    _ => String::from_str(conn_url),
                };
                Ok(
                    ConnectPlan {
                        backend,
                        url,
                        needs_app_dir: match backend {
                            Backend::Sqlite => true,
                            _ => false,
                        },
                        create_if_missing: backend.creates_database(),
                    },
                )
            },
        }
    }
}

} // verus!
