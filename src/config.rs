use vstd::prelude::*;
use vstd::string::*;
use crate::naming::{snake_case, to_snake_case};
use crate::text::same_text;

verus! {

/// One type-level configuration annotation.
#[derive(Debug)]
pub enum ConfigAttr {
    /// A `key = value` entry; `value` is present when it is a literal string.
    Entry { key: String, value: Option<String> },
    /// A payload that is not a flat `key = value` entry.
    Malformed,
}

/// The table configuration of a record type.
#[derive(Debug)]
pub struct TableConfig {
    pub table_name: String,
    pub db_name: String,
    pub table_type: String,
    /// The configured driver name, where one is given.
    pub driver: Option<String>,
}

/// The literal value that the last entry for `key` gives, where one does.
pub open spec fn config_value(attrs: Seq<ConfigAttr>, key: Seq<char>) -> Option<Seq<char>>
    decreases attrs.len(),
{
    if attrs.len() == 0 {
        None
    } else {
        match attrs.last() {
            ConfigAttr::Entry { key: k, value: Some(v) } => if k@ == key {
                Some(v@)
            } else {
                config_value(attrs.drop_last(), key)
            },
            _ => config_value(attrs.drop_last(), key),
        }
    }
}

pub open spec fn or_else(v: Option<Seq<char>>, d: Seq<char>) -> Seq<char> {
    match v {
        Some(x) => x,
        None => d,
    }
}

/// Reads the configuration of a record type named `record_name` from its annotations.
/// Entries with another key, or whose value is no literal string, are ignored; a
/// later entry for a key replaces an earlier one. The table name is the configured
/// one, or else the type name, in snake case.
pub fn extract_config(record_name: &str, attrs: &Vec<ConfigAttr>) -> (r: TableConfig)
    ensures
        r.table_name@ == snake_case(or_else(config_value(attrs@, "table_name"@), record_name@)),
        r.db_name@ == or_else(config_value(attrs@, "db_name"@), ""@),
        r.table_type@ == or_else(config_value(attrs@, "table_type"@), ""@),
        r.driver matches Some(d) ==> config_value(attrs@, "driver"@) == Some(d@),
        r.driver is None ==> config_value(attrs@, "driver"@) is None,
{
    let mut table_name: Option<String> = None;
    let mut db_name: Option<String> = None;
    let mut table_type: Option<String> = None;
    let mut driver: Option<String> = None;
    let mut i: usize = 0;
    while i < attrs.len()
        invariant
            i <= attrs.len(),
            table_name matches Some(x) ==> config_value(attrs@.subrange(0, i as int), "table_name"@) == Some(x@),
            table_name is None ==> config_value(attrs@.subrange(0, i as int), "table_name"@) is None,
            db_name matches Some(x) ==> config_value(attrs@.subrange(0, i as int), "db_name"@) == Some(x@),
            db_name is None ==> config_value(attrs@.subrange(0, i as int), "db_name"@) is None,
            table_type matches Some(x) ==> config_value(attrs@.subrange(0, i as int), "table_type"@) == Some(x@),
            table_type is None ==> config_value(attrs@.subrange(0, i as int), "table_type"@) is None,
            driver matches Some(x) ==> config_value(attrs@.subrange(0, i as int), "driver"@) == Some(x@),
            driver is None ==> config_value(attrs@.subrange(0, i as int), "driver"@) is None,
        decreases attrs.len() - i,
    {
        proof {
            reveal_strlit("table_name");
            reveal_strlit("db_name");
            reveal_strlit("table_type");
            reveal_strlit("driver");
        }
        assert("table_name"@.len() == 10 && "table_type"@.len() == 10);
        assert("db_name"@.len() == 7 && "driver"@.len() == 6);
        assert("table_name"@[6] != "table_type"@[6]);
        assert("table_name"@ != "db_name"@ && "table_name"@ != "driver"@);
        assert("table_type"@ != "db_name"@ && "table_type"@ != "driver"@);
        assert("db_name"@ != "driver"@);
        assert(attrs@.subrange(0, i + 1).drop_last() =~= attrs@.subrange(0, i as int));
        assert(attrs@.subrange(0, i + 1).last() == attrs@[i as int]);
        match &attrs[i] {
            ConfigAttr::Entry { key, value: Some(v) } => {
                let k = key.as_str();
                if same_text(k, "table_name") {
                    table_name = Some(v.clone());
                } else if same_text(k, "db_name") {
                    db_name = Some(v.clone());
                } else if same_text(k, "table_type") {
                    table_type = Some(v.clone());
                } else if same_text(k, "driver") {
                    driver = Some(v.clone());
                }
            },
            _ => {},
        }
        i = i + 1;
    }
    assert(attrs@.subrange(0, attrs.len() as int) =~= attrs@);
    let base = match table_name {
        Some(t) => t,
        None => String::from_str(record_name),
    };
    TableConfig {
        table_name: to_snake_case(base.as_str()),
        db_name: match db_name {
            Some(d) => d,
            None => String::from_str(""),
        },
        table_type: match table_type {
            Some(t) => t,
            None => String::from_str(""),
        },
        driver,
    }
}

} // verus!
