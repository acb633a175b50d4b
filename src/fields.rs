use vstd::prelude::*;
use vstd::string::*;
use crate::text::{contains, contains_text, find_from, first_at, same_text};

verus! {

/// How a field's type is written.
#[derive(Debug)]
pub enum FieldType {
    /// A path type: the name of its last segment and, where its first generic
    /// argument is itself a path type, the name of that argument's last segment.
    Path { last: String, first_arg: Option<String> },
    /// A path type without segments.
    EmptyPath,
    /// Any other type, as its source text.
    Other(String),
}

/// One declared field: its name, its type and the raw text of each of its
/// configuration annotations.
#[derive(Debug)]
pub struct FieldInput {
    pub name: String,
    pub ty: FieldType,
    pub annotations: Vec<String>,
}

/// What the analysis finds of one field.
#[derive(Debug)]
pub struct FieldDescriptor {
    pub name: String,
    pub ty_name: String,
    pub is_optional: bool,
    pub is_primary_key: bool,
    pub is_auto_increment: bool,
    pub default_value: String,
}

/// The analysed fields: all of them in declaration order, the positions of those
/// that insert and update write, and the position of the resolved primary key.
#[derive(Debug)]
pub struct FieldSet {
    pub full: Vec<FieldDescriptor>,
    pub insertable: Vec<usize>,
    pub primary_key: Option<usize>,
}

/// The declared type name of a field, and whether it is optional.
pub open spec fn resolved_type(ty: FieldType) -> (Seq<char>, bool) {
    match ty {
        FieldType::Path { last, first_arg } => if last@ == "Option"@ {
            match first_arg {
                Some(a) => (a@, true),
                None => ("_"@, true),
            }
        } else {
            (last@, false)
        },
        FieldType::EmptyPath => ("_"@, false),
        FieldType::Other(s) => (s@, false),
    }
}

pub open spec fn annotation_texts(f: FieldInput) -> Seq<Seq<char>> {
    f.annotations@.map_values(|s: String| s@)
}

/// Whether some annotation text holds `m`.
pub open spec fn any_contains_text(annots: Seq<Seq<char>>, m: Seq<char>) -> bool
    decreases annots.len(),
{
    annots.len() > 0 && (any_contains_text(annots.drop_last(), m) || contains_text(
        annots.last(),
        m,
    ))
}

/// The first quoted text after the first occurrence of "default" in `a`.
pub open spec fn explicit_default_in(a: Seq<char>) -> Option<Seq<char>> {
    match first_at(a, "default"@, 0) {
        None => None,
        Some(d) => match first_at(a, "\""@, d) {
            None => None,
            Some(q1) => match first_at(a, "\""@, q1 + 1) {
                None => None,
                Some(q2) => Some(a.subrange(q1 + 1, q2)),
            },
        },
    }
}

/// The explicit default of a field: that of its last annotation that gives one.
pub open spec fn explicit_default(annots: Seq<Seq<char>>) -> Option<Seq<char>>
    decreases annots.len(),
{
    if annots.len() == 0 {
        None
    } else {
        match explicit_default_in(annots.last()) {
            Some(d) => Some(d),
            None => explicit_default(annots.drop_last()),
        }
    }
}

pub open spec fn is_numeric_type(t: Seq<char>) -> bool {
    t == "u64"@ || t == "u32"@ || t == "u8"@ || t == "i64"@ || t == "i32"@ || t == "usize"@
        || t == "isize"@ || t == "f64"@ || t == "f32"@
}

pub open spec fn is_float_name(t: Seq<char>) -> bool {
    t == "float"@ || t == "float32"@ || t == "float64"@
}

/// The default text a field of type `t` takes when no annotation gives one.
pub open spec fn implicit_default(t: Seq<char>) -> Seq<char> {
    if t == "String"@ {
        ""@
    } else if is_numeric_type(t) {
        "0"@
    } else if is_float_name(t) {
        "0.0"@
    } else if t == "bool"@ {
        "false"@
    } else {
        ""@
    }
}

pub open spec fn field_default(annots: Seq<Seq<char>>, t: Seq<char>) -> Seq<char> {
    match explicit_default(annots) {
        Some(d) => d,
        None => implicit_default(t),
    }
}

/// `d` is what the analysis finds of the field `f`.
pub open spec fn describes(d: FieldDescriptor, f: FieldInput) -> bool {
    let annots = annotation_texts(f);
    let auto = any_contains_text(annots, "auto_increment"@);
    &&& d.name@ == f.name@
    &&& d.ty_name@ == resolved_type(f.ty).0
    &&& d.is_optional == resolved_type(f.ty).1
    &&& d.is_auto_increment == auto
    &&& d.is_primary_key == (auto || any_contains_text(annots, "primary_key"@))
    &&& d.default_value@ == field_default(annots, d.ty_name@)
}

/// The resolved primary key of the fields, read left to right: the last field
/// marked auto_increment, or else the first marked primary_key.
pub open spec fn primary_key_of(fields: Seq<FieldInput>) -> Option<int>
    decreases fields.len(),
{
    if fields.len() == 0 {
        None
    } else {
        let before = primary_key_of(fields.drop_last());
        let annots = annotation_texts(fields.last());
        if any_contains_text(annots, "auto_increment"@) {
            Some(fields.len() - 1)
        } else if any_contains_text(annots, "primary_key"@) && before is None {
            Some(fields.len() - 1)
        } else {
            before
        }
    }
}

/// Whether an annotation of `f` marks it auto_increment.
pub open spec fn marked_auto(f: FieldInput) -> bool {
    any_contains_text(annotation_texts(f), "auto_increment"@)
}

/// An auto_increment marker anywhere among the fields decides the primary key: it is
/// the last field so marked, whatever primary_key markers stand before or after it.
pub proof fn lemma_auto_increment_decides_key(fields: Seq<FieldInput>, k: int)
    requires
        0 <= k < fields.len(),
        marked_auto(fields[k]),
    ensures
        primary_key_of(fields) matches Some(p) && k <= p < fields.len() && marked_auto(fields[p]) && forall|j: int|
            p < j < fields.len() ==> !marked_auto(#[trigger] fields[j]),
    decreases fields.len(),
{
    if !marked_auto(fields.last()) {
        let before = fields.drop_last();
        assert(before[k] == fields[k]);
        lemma_auto_increment_decides_key(before, k);
        let p = primary_key_of(before)->0;
        assert(fields[p] == before[p]);
        assert forall|j: int| p < j < fields.len() implies !marked_auto(#[trigger] fields[j]) by {
            if j < fields.len() - 1 {
                assert(fields[j] == before[j]);
            }
        }
    }
}

/// A field that no annotation gives a default takes "0" when its type is of the
/// numeric family, and the empty text when it is `String`.
pub proof fn lemma_implicit_defaults(annots: Seq<Seq<char>>, t: Seq<char>)
    requires
        explicit_default(annots) is None,
    ensures
        is_numeric_type(t) ==> field_default(annots, t) == "0"@,
        t == "String"@ ==> field_default(annots, t) == ""@,
{
    reveal_strlit("String");
    reveal_strlit("u64");
    reveal_strlit("u32");
    reveal_strlit("u8");
    reveal_strlit("i64");
    reveal_strlit("i32");
    reveal_strlit("usize");
    reveal_strlit("isize");
    reveal_strlit("f64");
    reveal_strlit("f32");
    if is_numeric_type(t) {
        assert(t.len() < 6 && "String"@.len() == 6);
    }
}

/// The positions of the fields that are not auto-increment, in order.
pub open spec fn insertable_of(full: Seq<FieldDescriptor>) -> Seq<int>
    decreases full.len(),
{
    if full.len() == 0 {
        Seq::empty()
    } else if full.last().is_auto_increment {
        insertable_of(full.drop_last())
    } else {
        insertable_of(full.drop_last()).push(full.len() - 1)
    }
}

pub open spec fn positions(v: Seq<usize>) -> Seq<int> {
    v.map_values(|k: usize| k as int)
}

impl FieldSet {
    /// Every position that the set holds names one of its fields.
    pub open spec fn wf(&self) -> bool {
        &&& forall|j: int| 0 <= j < self.insertable@.len() ==> #[trigger] self.insertable@[j] < self.full@.len()
        &&& self.primary_key matches Some(k) ==> k < self.full@.len()
    }
}

pub open spec fn key_matches(k: Option<usize>, s: Option<int>) -> bool {
    match k {
        Some(i) => s == Some(i as int),
        None => s is None,
    }
}

/// The declared type name of a field, and whether it is optional.
pub fn resolve_type(ty: &FieldType) -> (r: (String, bool))
    ensures
        (r.0@, r.1) == resolved_type(*ty),
{
    match ty {
        FieldType::Path { last, first_arg } => {
            if same_text(last.as_str(), "Option") {
                match first_arg {
                    Some(a) => (a.clone(), true),
                    None => (String::from_str("_"), true),
                }
            } else {
                (last.clone(), false)
            }
        },
        FieldType::EmptyPath => (String::from_str("_"), false),
        FieldType::Other(s) => (s.clone(), false),
    }
}

/// Whether some annotation text holds `m`.
pub fn any_contains(annots: &Vec<String>, m: &str) -> (r: bool)
    ensures
        r == any_contains_text(annots@.map_values(|s: String| s@), m@),
{
    let ghost views = annots@.map_values(|s: String| s@);
    let mut found = false;
    let mut i: usize = 0;
    while i < annots.len()
        invariant
            views == annots@.map_values(|s: String| s@),
            i <= annots.len(),
            found == any_contains_text(views.subrange(0, i as int), m@),
        decreases annots.len() - i,
    {
        assert(views.subrange(0, i + 1).drop_last() =~= views.subrange(0, i as int));
        if contains(annots[i].as_str(), m) {
            found = true;
        }
        i = i + 1;
    }
    assert(views.subrange(0, annots.len() as int) =~= views);
    found
}

/// The first quoted text after the first occurrence of "default" in `a`.
pub fn explicit_default_of(a: &str) -> (r: Option<String>)
    ensures
        r matches Some(d) ==> explicit_default_in(a@) == Some(d@),
        r is None ==> explicit_default_in(a@) is None,
{
    proof {
        reveal_strlit("\"");
    }
    match find_from(a, "default", 0) {
        None => None,
        Some(d) => match find_from(a, "\"", d) {
            None => None,
            Some(q1) => match find_from(a, "\"", q1 + 1) {
                None => None,
                Some(q2) => Some(String::from_str(a.substring_char(q1 + 1, q2))),
            },
        },
    }
}

/// The explicit default of a field: that of its last annotation that gives one.
pub fn explicit_default_all(annots: &Vec<String>) -> (r: Option<String>)
    ensures
        r matches Some(d) ==> explicit_default(annots@.map_values(|s: String| s@)) == Some(d@),
        r is None ==> explicit_default(annots@.map_values(|s: String| s@)) is None,
{
    let ghost views = annots@.map_values(|s: String| s@);
    let mut found: Option<String> = None;
    let mut i: usize = 0;
    while i < annots.len()
        invariant
            views == annots@.map_values(|s: String| s@),
            i <= annots.len(),
            found matches Some(d) ==> explicit_default(views.subrange(0, i as int)) == Some(d@),
            found is None ==> explicit_default(views.subrange(0, i as int)) is None,
        decreases annots.len() - i,
    {
        assert(views.subrange(0, i + 1).drop_last() =~= views.subrange(0, i as int));
        match explicit_default_of(annots[i].as_str()) {
            Some(d) => {
                found = Some(d);
            },
            None => {},
        }
        i = i + 1;
    }
    assert(views.subrange(0, annots.len() as int) =~= views);
    found
}

/// The default text a field of type `t` takes when no annotation gives one.
pub fn implicit_default_of(t: &str) -> (r: String)
    ensures
        r@ == implicit_default(t@),
{
    let numeric = same_text(t, "u64") || same_text(t, "u32") || same_text(t, "u8") || same_text(
        t,
        "i64",
    ) || same_text(t, "i32") || same_text(t, "usize") || same_text(t, "isize") || same_text(
        t,
        "f64",
    ) || same_text(t, "f32");
    let float = same_text(t, "float") || same_text(t, "float32") || same_text(t, "float64");
    if same_text(t, "String") {
        String::from_str("")
    } else if numeric {
        String::from_str("0")
    } else if float {
        String::from_str("0.0")
    } else if same_text(t, "bool") {
        String::from_str("false")
    } else {
        String::from_str("")
    }
}

/// Analyses the fields in one pass, in declaration order.
pub fn analyze_fields(fields: &Vec<FieldInput>) -> (r: FieldSet)
    ensures
        r.full@.len() == fields@.len(),
        forall|i: int| 0 <= i < fields@.len() ==> describes(#[trigger] r.full@[i], fields@[i]),
        key_matches(r.primary_key, primary_key_of(fields@)),
        positions(r.insertable@) == insertable_of(r.full@),
        r.wf(),
{
    let mut full: Vec<FieldDescriptor> = Vec::new();
    let mut insertable: Vec<usize> = Vec::new();
    let mut pk: Option<usize> = None;
    let mut i: usize = 0;
    while i < fields.len()
        invariant
            i <= fields.len(),
            full@.len() == i,
            forall|j: int| 0 <= j < i ==> describes(#[trigger] full@[j], fields@[j]),
            key_matches(pk, primary_key_of(fields@.subrange(0, i as int))),
            positions(insertable@) == insertable_of(full@),
            forall|j: int| 0 <= j < insertable@.len() ==> #[trigger] insertable@[j] < i,
            pk matches Some(k) ==> k < i,
        decreases fields.len() - i,
    {
        let f = &fields[i];
        assert(fields@.subrange(0, i + 1).drop_last() =~= fields@.subrange(0, i as int));
        assert(fields@.subrange(0, i + 1).last() == fields@[i as int]);
        let (ty_name, is_optional) = resolve_type(&f.ty);
        let is_auto = any_contains(&f.annotations, "auto_increment");
        let marked_pk = any_contains(&f.annotations, "primary_key");
        let default_value = match explicit_default_all(&f.annotations) {
            Some(d) => d,
            None => implicit_default_of(ty_name.as_str()),
        };
        if is_auto {
            pk = Some(i);
        } else if marked_pk && pk.is_none() {
            pk = Some(i);
        }
        let d = FieldDescriptor {
            name: f.name.clone(),
            ty_name,
            is_optional,
            is_primary_key: is_auto || marked_pk,
            is_auto_increment: is_auto,
            default_value,
        };
        let ghost before = full@;
        full.push(d);
        assert(full@.drop_last() =~= before);
        if !is_auto {
            insertable.push(i);
        }
        assert(positions(insertable@) =~= insertable_of(full@));
        i = i + 1;
    }
    assert(fields@.subrange(0, fields.len() as int) =~= fields@);
    FieldSet { full, insertable, primary_key: pk }
}

} // verus!
