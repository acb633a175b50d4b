use vstd::prelude::*;
use vstd::string::*;
use crate::text::same_text;

verus! {

/// The database backends that generated code can be specialised for.
#[derive(Clone, Copy, Debug, PartialEq, Eq)]
pub enum Driver {
    Sqlite,
    MySql,
    Postgres,
}

/// A failure that stops generation for one record type.
#[derive(Clone, Debug, PartialEq, Eq)]
pub enum GenerateError {
    /// The configured driver is none of sqlite, mysql and postgres; holds the value as given.
    UnsupportedDriver(String),
}

/// The backend type descriptors that a driver specialises generated methods with.
#[derive(Debug)]
pub struct DriverProfile {
    pub engine: String,
    pub arguments: String,
    pub row: String,
}

/// What `str::to_lowercase` returns for a text.
pub uninterp spec fn lowercase_of(s: Seq<char>) -> Seq<char>;

/// Relies on str::to_lowercase: the lowercase form of a text, which depends on its
/// characters alone.
#[verifier::external_body]
fn lowercase(s: &str) -> (r: String)
    ensures
        r@ == lowercase_of(s@),
{
    s.to_lowercase()
}

/// The driver that a lowercase driver name stands for.
pub open spec fn driver_named(l: Seq<char>) -> Option<Driver> {
    if l == "sqlite"@ {
        Some(Driver::Sqlite)
    } else if l == "mysql"@ {
        Some(Driver::MySql)
    } else if l == "postgres"@ {
        Some(Driver::Postgres)
    } else {
        None
    }
}

/// The driver that a configured driver name selects: sqlite when none is given or
/// it is empty, else the one whose name it is, ignoring case.
pub open spec fn resolved_driver(name: Option<Seq<char>>) -> Option<Driver> {
    match name {
        None => Some(Driver::Sqlite),
        Some(n) => if n.len() == 0 {
            Some(Driver::Sqlite)
        } else {
            driver_named(lowercase_of(n))
        },
    }
}

/// The driver that an already lowercased driver name stands for.
pub fn driver_from_lowercase(l: &str) -> (r: Option<Driver>)
    ensures
        r == driver_named(l@),
{
    if same_text(l, "sqlite") {
        Some(Driver::Sqlite)
    } else if same_text(l, "mysql") {
        Some(Driver::MySql)
    } else if same_text(l, "postgres") {
        Some(Driver::Postgres)
    } else {
        None
    }
}

/// Resolves the configured driver name; a name outside the known set is an error
/// that carries it.
pub fn resolve_driver(name: Option<&str>) -> (r: Result<Driver, GenerateError>)
    ensures
        name is None ==> r == Ok::<Driver, GenerateError>(Driver::Sqlite),
        name matches Some(n) ==> match resolved_driver(Some(n@)) {
            Some(d) => r == Ok::<Driver, GenerateError>(d),
            None => r matches Err(GenerateError::UnsupportedDriver(m)) && m@ == n@,
        },
{
    match name {
        None => Ok(Driver::Sqlite),
        Some(n) => {
            if n.unicode_len() == 0 {
                return Ok(Driver::Sqlite);
            }
            let l = lowercase(n);
            match driver_from_lowercase(l.as_str()) {
                Some(d) => Ok(d),
                None => Err(GenerateError::UnsupportedDriver(String::from_str(n))),
            }
        },
    }
}

impl Driver {
    /// The backend type descriptors of this driver.
    pub fn profile(&self) -> (r: DriverProfile)
        ensures
            *self == Driver::Sqlite ==> r.engine@ == "sqlx::Sqlite"@ && r.arguments@
                == "sqlx::sqlite::SqliteArguments"@ && r.row@ == "sqlx::sqlite::SqliteRow"@,
            *self == Driver::MySql ==> r.engine@ == "sqlx::MySql"@ && r.arguments@
                == "sqlx::mysql::MySqlArguments"@ && r.row@ == "sqlx::mysql::MySqlRow"@,
            *self == Driver::Postgres ==> r.engine@ == "sqlx::Postgres"@ && r.arguments@
                == "sqlx::postgres::PgArguments"@ && r.row@ == "sqlx::postgres::PgRow"@,
    {
        match self {
            Driver::Sqlite => DriverProfile {
                engine: String::from_str("sqlx::Sqlite"),
                arguments: String::from_str("sqlx::sqlite::SqliteArguments"),
                row: String::from_str("sqlx::sqlite::SqliteRow"),
            },
            Driver::MySql => DriverProfile {
                engine: String::from_str("sqlx::MySql"),
                arguments: String::from_str("sqlx::mysql::MySqlArguments"),
                row: String::from_str("sqlx::mysql::MySqlRow"),
            },
            Driver::Postgres => DriverProfile {
                engine: String::from_str("sqlx::Postgres"),
                arguments: String::from_str("sqlx::postgres::PgArguments"),
                row: String::from_str("sqlx::postgres::PgRow"),
            },
        }
    }
}

} // verus!
