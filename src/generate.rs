use vstd::prelude::*;
use vstd::string::*;
use crate::bind::{bind_mode_of, binds_fields, delete_binds, insert_binds, update_binds, BindStep};
use crate::config::{config_value, extract_config, or_else, ConfigAttr};
use crate::driver::{resolve_driver, resolved_driver, Driver, GenerateError};
use crate::fields::{
    analyze_fields,
    annotation_texts,
    any_contains_text,
    describes,
    insertable_of,
    positions,
    primary_key_of,
    FieldDescriptor,
    FieldInput,
};
use crate::naming::snake_case;
use crate::sql::{
    delete_sql,
    delete_sql_text,
    insert_sql,
    insert_sql_text,
    select_sql,
    select_sql_text,
    texts,
    update_sql,
    update_sql_text,
};

verus! {

/// Everything generated for one record type.
#[derive(Debug)]
pub struct Generated {
    /// The name of the primary key field, or empty without one.
    pub primary_key: String,
    pub pk_auto_increment: bool,
    pub table_name: String,
    pub db_name: String,
    pub table_type: String,
    pub select_sql: String,
    pub insert_sql: String,
    pub update_sql: String,
    pub delete_sql: String,
    /// The field metadata, in declaration order.
    pub fields: Vec<FieldDescriptor>,
    pub insert_binds: Vec<BindStep>,
    pub update_binds: Vec<BindStep>,
    pub delete_binds: Vec<BindStep>,
    pub driver: Driver,
}

pub open spec fn field_names(fields: Seq<FieldInput>) -> Seq<Seq<char>> {
    fields.map_values(|f: FieldInput| f.name@)
}

/// The names of the fields at the given positions.
pub open spec fn names_at(fields: Seq<FieldInput>, at: Seq<int>) -> Seq<Seq<char>> {
    at.map_values(|k: int| fields[k].name@)
}

/// The table name of a record type named `record_name`.
pub open spec fn table_of(record_name: Seq<char>, attrs: Seq<ConfigAttr>) -> Seq<char> {
    snake_case(or_else(config_value(attrs, "table_name"@), record_name))
}

/// The name of the resolved primary key, or empty without one.
pub open spec fn key_name(fields: Seq<FieldInput>) -> Seq<char> {
    match primary_key_of(fields) {
        Some(k) => fields[k].name@,
        None => ""@,
    }
}

/// Everything that is generated for the record type, given what its analysis found.
pub open spec fn generated_for(
    g: Generated,
    record_name: Seq<char>,
    attrs: Seq<ConfigAttr>,
    fields: Seq<FieldInput>,
) -> bool {
    let table = table_of(record_name, attrs);
    let pk = primary_key_of(fields);
    let ins = insertable_of(g.fields@);
    let cols = names_at(fields, ins);
    &&& g.fields@.len() == fields.len()
    &&& forall|i: int| 0 <= i < fields.len() ==> describes(#[trigger] g.fields@[i], fields[i])
    &&& g.table_name@ == table
    &&& g.db_name@ == or_else(config_value(attrs, "db_name"@), ""@)
    &&& g.table_type@ == or_else(config_value(attrs, "table_type"@), ""@)
    &&& g.primary_key@ == key_name(fields)
    &&& g.pk_auto_increment == (pk matches Some(k) && any_contains_text(
        annotation_texts(fields[k]),
        "auto_increment"@,
    ))
    &&& g.select_sql@ == select_sql_text(table, field_names(fields))
    &&& g.insert_sql@ == insert_sql_text(table, cols)
    &&& g.update_sql@ == update_sql_text(table, cols, key_name(fields))
    &&& g.delete_sql@ == delete_sql_text(
        table,
        match pk {
            Some(k) => Some(fields[k].name@),
            None => None,
        },
    )
    &&& binds_fields(g.insert_binds@, g.fields@, ins)
    &&& (pk is None ==> binds_fields(g.update_binds@, g.fields@, ins) && g.delete_binds@.len()
        == 0)
    &&& (pk matches Some(k) ==> binds_fields(g.update_binds@, g.fields@, ins.push(k))
        && binds_fields(g.delete_binds@, g.fields@, seq![k]))
    &&& Some(g.driver) == resolved_driver(config_value(attrs, "driver"@))
}

/// Generates the SQL texts, bind plans, field metadata and driver of a record type
/// named `record_name` with the given configuration annotations and fields. Fails
/// only on a driver name outside the known set.
pub fn generate(record_name: &str, attrs: &Vec<ConfigAttr>, fields: &Vec<FieldInput>) -> (r: Result<
    Generated,
    GenerateError,
>)
    ensures
        r matches Ok(g) ==> generated_for(g, record_name@, attrs@, fields@),
        r is Err <==> resolved_driver(config_value(attrs@, "driver"@)) is None,
        r matches Err(GenerateError::UnsupportedDriver(m)) ==> config_value(attrs@, "driver"@)
            == Some(m@),
{
    let cfg = extract_config(record_name, attrs);
    let driver = match resolve_driver(
        match &cfg.driver {
            Some(d) => Some(d.as_str()),
            None => None,
        },
    ) {
        Ok(d) => d,
        Err(e) => {
            return Err(e);
        },
    };
    let fs = analyze_fields(fields);
    let ghost ins = insertable_of(fs.full@);
    let mut all_names: Vec<String> = Vec::new();
    let mut i: usize = 0;
    while i < fs.full.len()
        invariant
            i <= fs.full.len(),
            fs.full@.len() == fields@.len(),
            forall|j: int| 0 <= j < fields@.len() ==> describes(#[trigger] fs.full@[j], fields@[j]),
            texts(all_names@) =~= field_names(fields@).subrange(0, i as int),
        decreases fs.full.len() - i,
    {
        assert(describes(fs.full@[i as int], fields@[i as int]));
        let ghost before = all_names@;
        all_names.push(fs.full[i].name.clone());
        assert(texts(all_names@) =~= texts(before).push(fields@[i as int].name@));
        i = i + 1;
    }
    assert(field_names(fields@).subrange(0, fields@.len() as int) =~= field_names(fields@));
    let mut cols: Vec<String> = Vec::new();
    let mut i: usize = 0;
    while i < fs.insertable.len()
        invariant
            i <= fs.insertable.len(),
            fs.wf(),
            fs.full@.len() == fields@.len(),
            forall|j: int| 0 <= j < fields@.len() ==> describes(#[trigger] fs.full@[j], fields@[j]),
            positions(fs.insertable@) == ins,
            texts(cols@) =~= names_at(fields@, ins).subrange(0, i as int),
        decreases fs.insertable.len() - i,
    {
        let k = fs.insertable[i];
        assert(describes(fs.full@[k as int], fields@[k as int]));
        assert(ins[i as int] == k);
        let ghost before = cols@;
        cols.push(fs.full[k].name.clone());
        assert(texts(cols@) =~= texts(before).push(fields@[k as int].name@));
        i = i + 1;
    }
    assert(names_at(fields@, ins).subrange(0, ins.len() as int) =~= names_at(fields@, ins));
    let pk_name = match fs.primary_key {
        Some(k) => {
            assert(describes(fs.full@[k as int], fields@[k as int]));
            fs.full[k].name.clone()
        },
        None => String::from_str(""),
    };
    let pk_auto = match fs.primary_key {
        Some(k) => {
            assert(describes(fs.full@[k as int], fields@[k as int]));
            fs.full[k].is_auto_increment
        },
        None => false,
    };
    let table = cfg.table_name.as_str();
    let select = select_sql(table, &all_names);
    let insert = insert_sql(table, &cols);
    let update = update_sql(table, &cols, pk_name.as_str());
    let delete = delete_sql(
        table,
        match fs.primary_key {
            Some(_) => Some(pk_name.as_str()),
            None => None,
        },
    );
    assert(texts(all_names@) == field_names(fields@));
    assert(texts(cols@) == names_at(fields@, ins));
    let ib = insert_binds(&fs);
    let ub = update_binds(&fs);
    let db = delete_binds(&fs);
    let g = Generated {
        primary_key: pk_name,
        pk_auto_increment: pk_auto,
        table_name: cfg.table_name,
        db_name: cfg.db_name,
        table_type: cfg.table_type,
        select_sql: select,
        insert_sql: insert,
        update_sql: update,
        delete_sql: delete,
        fields: fs.full,
        insert_binds: ib,
        update_binds: ub,
        delete_binds: db,
        driver,
    };
    Ok(g)
}

/// Without insertable fields, INSERT uses the default values and UPDATE is a
/// comment that does nothing, never an empty SET clause.
pub proof fn lemma_no_insertable_fields(
    g: Generated,
    record_name: Seq<char>,
    attrs: Seq<ConfigAttr>,
    fields: Seq<FieldInput>,
)
    requires
        generated_for(g, record_name, attrs, fields),
        insertable_of(g.fields@).len() == 0,
    ensures
        g.insert_sql@ == "INSERT INTO "@ + g.table_name@ + " DEFAULT VALUES"@,
        g.update_sql@ == "-- No fields to update for table "@ + g.table_name@,
        g.update_sql@.subrange(0, 3) == "-- "@,
{
    reveal_strlit("-- No fields to update for table ");
    reveal_strlit("-- ");
    assert(g.update_sql@.subrange(0, 3) =~= "-- "@);
}

/// The primary key is always the last parameter that UPDATE binds, wherever it is
/// declared among the fields, and it is bound in its own mode.
pub proof fn lemma_update_binds_key_last(
    g: Generated,
    record_name: Seq<char>,
    attrs: Seq<ConfigAttr>,
    fields: Seq<FieldInput>,
    k: int,
)
    requires
        generated_for(g, record_name, attrs, fields),
        primary_key_of(fields) == Some(k),
    ensures
        g.update_binds@.len() > 0,
        g.update_binds@.last().field == k,
        g.update_binds@.last().mode == bind_mode_of(g.fields@[k]),
{
    let ins = insertable_of(g.fields@);
    assert(g.update_binds@.last() == g.update_binds@[ins.len() as int]);
}

} // verus!
