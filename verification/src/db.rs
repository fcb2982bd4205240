//! What is decided about the store before any connection is made: which
//! backend the configuration selects, and whether the configured table name
//! may be put into a statement.

use crate::common::utils::{valid_table_name, validate_table_name};
use crate::model::app_config::DbConfig;
use vstd::prelude::*;
use vstd::string::StringExecFns;

verus! {

/// The storage backends that can be selected.
#[derive(Clone, Copy, Debug, PartialEq, Eq, Structural)]
pub enum DbDriver {
    Sqlite,
    MySql,
    Postgres,
}

/// Why a configuration was turned down at start-up.
#[derive(Debug)]
pub enum ConfigError {
    /// The driver that was asked for is none of the supported ones.
    UnsupportedDriver(String),
    /// The name configured for the table is no valid identifier.
    InvalidTableName(String),
}

impl ConfigError {
    /// The text of the error.
    pub open spec fn spec_message(&self) -> Seq<char> {
        match self {
            ConfigError::UnsupportedDriver(name) => "Unsupported DB type: "@ + name@,
            ConfigError::InvalidTableName(name) => "Invalid table name: "@ + name@,
        }
    }

    /// The error as text, for logs and for the user.
    pub fn message(&self) -> (text: String)
        ensures
            text@ == self.spec_message(),
    {
        match self {
            ConfigError::UnsupportedDriver(name) => String::from_str("Unsupported DB type: ").concat(
                name.as_str(),
            ),
            ConfigError::InvalidTableName(name) => String::from_str("Invalid table name: ").concat(
                name.as_str(),
            ),
        }
    }
}

impl DbDriver {
    /// The backend that a configured driver name selects, if any.
    pub open spec fn spec_parse(name: Seq<char>) -> Option<DbDriver> {
        if name == "sqlite"@ {
            Some(DbDriver::Sqlite)
        } else if name == "mysql"@ {
            Some(DbDriver::MySql)
        } else if name == "postgres"@ {
            Some(DbDriver::Postgres)
        } else {
            None
        }
    }

    /// Selects the backend by the configured driver name; any name other than
    /// `sqlite`, `mysql` and `postgres` is an error that carries the name.
    pub fn parse(name: &str) -> (r: Result<DbDriver, ConfigError>)
        ensures
            match r {
                Ok(driver) => Self::spec_parse(name@) == Some(driver),
                Err(ConfigError::UnsupportedDriver(given)) => Self::spec_parse(name@) is None
                    && given@ == name@,
                Err(ConfigError::InvalidTableName(_)) => false,
            },
    {
        let given = String::from_str(name);
        if given == String::from_str("sqlite") {
            Ok(DbDriver::Sqlite)
        } else if given == String::from_str("mysql") {
            Ok(DbDriver::MySql)
        } else if given == String::from_str("postgres") {
            Ok(DbDriver::Postgres)
        } else {
            Err(ConfigError::UnsupportedDriver(given))
        }
    }
}

/// Checks a store configuration: the driver must be a supported one, and the
/// table name a valid identifier. The driver is looked at first.
pub fn check_db_config(db: &DbConfig) -> (r: Result<DbDriver, ConfigError>)
    ensures
        match r {
            Ok(driver) => DbDriver::spec_parse(db.driver@) == Some(driver) && valid_table_name(
                db.table_name@,
            ),
            Err(ConfigError::UnsupportedDriver(given)) => DbDriver::spec_parse(db.driver@) is None
                && given@ == db.driver@,
            Err(ConfigError::InvalidTableName(given)) => DbDriver::spec_parse(db.driver@) is Some
                && !valid_table_name(db.table_name@) && given@ == db.table_name@,
        },
{
    match DbDriver::parse(db.driver.as_str()) {
        Err(e) => Err(e),
        Ok(driver) => {
            if validate_table_name(db.table_name.as_str()) {
                Ok(driver)
            } else {
                Err(ConfigError::InvalidTableName(db.table_name.clone()))
            }
        },
    }
}

} // verus!
