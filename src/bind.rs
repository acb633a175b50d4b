use vstd::prelude::*;
use crate::fields::{positions, FieldDescriptor, FieldSet};
use crate::naming::{snake_case, to_snake_case};
use crate::text::same_text;

verus! {

/// How a field's value is handed to the query as a parameter.
#[derive(Clone, Copy, Debug, PartialEq, Eq)]
pub enum BindMode {
    /// A string field, bound as a string slice.
    StrView,
    /// Any other field, bound by reference to the value.
    ValueRef,
    /// An optional string field, bound as an optional string slice (null when absent).
    OptionalStrView,
    /// Any other optional field, bound as an optional reference (null when absent).
    OptionalRef,
}

/// One bound parameter: the position of the field among all fields, and its mode.
#[derive(Clone, Copy, Debug, PartialEq, Eq)]
pub struct BindStep {
    pub field: usize,
    pub mode: BindMode,
}

/// A type of the string family: one whose name in snake case is "string".
pub open spec fn is_string_family(t: Seq<char>) -> bool {
    snake_case(t) == "string"@
}

pub open spec fn bind_mode_of(d: FieldDescriptor) -> BindMode {
    if d.is_optional {
        if is_string_family(d.ty_name@) {
            BindMode::OptionalStrView
        } else {
            BindMode::OptionalRef
        }
    } else {
        if is_string_family(d.ty_name@) {
            BindMode::StrView
        } else {
            BindMode::ValueRef
        }
    }
}

/// `plan` binds, in order, the fields at `positions`, each in its own mode.
pub open spec fn binds_fields(plan: Seq<BindStep>, full: Seq<FieldDescriptor>, at: Seq<int>) -> bool {
    &&& plan.len() == at.len()
    &&& forall|j: int| 0 <= j < plan.len() ==> (#[trigger] plan[j]).field == at[j]
        && plan[j].mode == bind_mode_of(full[at[j]])
}

/// The mode in which a field is bound.
pub fn bind_mode(d: &FieldDescriptor) -> (r: BindMode)
    ensures
        r == bind_mode_of(*d),
{
    let snake = to_snake_case(d.ty_name.as_str());
    let stringy = same_text(snake.as_str(), "string");
    if d.is_optional {
        if stringy {
            BindMode::OptionalStrView
        } else {
            BindMode::OptionalRef
        }
    } else {
        if stringy {
            BindMode::StrView
        } else {
            BindMode::ValueRef
        }
    }
}

/// The parameters of INSERT: the insertable fields, in order.
pub fn insert_binds(fs: &FieldSet) -> (r: Vec<BindStep>)
    requires
        fs.wf(),
    ensures
        binds_fields(r@, fs.full@, positions(fs.insertable@)),
{
    let mut plan: Vec<BindStep> = Vec::new();
    let mut i: usize = 0;
    while i < fs.insertable.len()
        invariant
            fs.wf(),
            i <= fs.insertable.len(),
            binds_fields(plan@, fs.full@, positions(fs.insertable@).subrange(0, i as int)),
        decreases fs.insertable.len() - i,
    {
        let k = fs.insertable[i];
        let mode = bind_mode(&fs.full[k]);
        plan.push(BindStep { field: k, mode });
        i = i + 1;
    }
    assert(positions(fs.insertable@).subrange(0, fs.insertable.len() as int) =~= positions(fs.insertable@));
    plan
}

/// The parameters of UPDATE: the insertable fields, in order, then the primary key.
pub fn update_binds(fs: &FieldSet) -> (r: Vec<BindStep>)
    requires
        fs.wf(),
    ensures
        fs.primary_key is None ==> binds_fields(r@, fs.full@, positions(fs.insertable@)),
        fs.primary_key matches Some(k) ==> binds_fields(r@, fs.full@, positions(fs.insertable@).push(k as int)),
{
    let mut plan = insert_binds(fs);
    match fs.primary_key {
        Some(k) => {
            let mode = bind_mode(&fs.full[k]);
            plan.push(BindStep { field: k, mode });
            let ghost ps = positions(fs.insertable@).push(k as int);
            assert forall|j: int| 0 <= j < plan@.len() implies (#[trigger] plan@[j]).field == ps[j]
                && plan@[j].mode == bind_mode_of(fs.full@[ps[j]]) by {
                if j < fs.insertable@.len() {
                    assert(ps[j] == positions(fs.insertable@)[j]);
                }
            }
        },
        None => {},
    }
    plan
}

/// The parameters of DELETE: the primary key alone, or none without one.
pub fn delete_binds(fs: &FieldSet) -> (r: Vec<BindStep>)
    requires
        fs.wf(),
    ensures
        fs.primary_key is None ==> r@.len() == 0,
        fs.primary_key matches Some(k) ==> binds_fields(r@, fs.full@, seq![k as int]),
{
    let mut plan: Vec<BindStep> = Vec::new();
    match fs.primary_key {
        Some(k) => {
            let mode = bind_mode(&fs.full[k]);
            plan.push(BindStep { field: k, mode });
        },
        None => {},
    }
    plan
}

} // verus!
