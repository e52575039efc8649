//! The field catalog: immutable per-session metadata of the project's
//! custom fields, used to translate between human-readable option names and
//! opaque option identifiers.

use vstd::prelude::*;

use crate::ids::FieldId;
use crate::ids::FieldOptionId;

verus! {

#[derive(Debug)]
pub struct SingleSelect;

#[derive(Debug)]
pub struct Iteration {
    pub start_date: String,
    pub duration: i64,
}

#[derive(Debug)]
pub struct FieldOption<T> {
    pub id: FieldOptionId,
    pub value: String,
    pub data: T,
}

#[derive(Debug)]
pub struct Field<T> {
    pub id: FieldId,
    pub name: String,
    pub options: Vec<FieldOption<T>>,
}

#[derive(Debug)]
pub struct Fields {
    pub project_id: String,
    pub status: Field<SingleSelect>,
    pub blocked: Field<SingleSelect>,
    pub epic: Field<SingleSelect>,
    pub iteration: Field<Iteration>,
    pub kind: Field<SingleSelect>,
    pub estimate: Field<SingleSelect>,
    pub priority: Field<SingleSelect>,
    pub workstream: Field<SingleSelect>,
    pub project_milestone: Field<SingleSelect>,
}

// ---------------------------------------------------------------------------
// Views
// ---------------------------------------------------------------------------

#[verifier::ext_equal]
pub struct IterationView {
    pub start_date: Seq<char>,
    pub duration: i64,
}

#[verifier::ext_equal]
pub struct FieldOptionView<V> {
    pub id: Seq<char>,
    pub value: Seq<char>,
    pub data: V,
}

#[verifier::ext_equal]
pub struct FieldView<V> {
    pub id: Seq<char>,
    pub name: Seq<char>,
    pub options: Seq<FieldOptionView<V>>,
}

#[verifier::ext_equal]
pub struct FieldsView {
    pub project_id: Seq<char>,
    pub status: FieldView<SingleSelect>,
    pub blocked: FieldView<SingleSelect>,
    pub epic: FieldView<SingleSelect>,
    pub iteration: FieldView<IterationView>,
    pub kind: FieldView<SingleSelect>,
    pub estimate: FieldView<SingleSelect>,
    pub priority: FieldView<SingleSelect>,
    pub workstream: FieldView<SingleSelect>,
    pub project_milestone: FieldView<SingleSelect>,
}

impl View for SingleSelect {
    type V = SingleSelect;

    open spec fn view(&self) -> SingleSelect {
        SingleSelect {  }
    }
}

impl View for Iteration {
    type V = IterationView;

    open spec fn view(&self) -> IterationView {
        IterationView { start_date: self.start_date@, duration: self.duration }
    }
}

impl<T: View> View for FieldOption<T> {
    type V = FieldOptionView<T::V>;

    open spec fn view(&self) -> FieldOptionView<T::V> {
        FieldOptionView { id: self.id@, value: self.value@, data: self.data@ }
    }
}

impl<T: View> View for Field<T> {
    type V = FieldView<T::V>;

    open spec fn view(&self) -> FieldView<T::V> {
        FieldView {
            id: self.id@,
            name: self.name@,
            options: self.options@.map_values(|o: FieldOption<T>| o@),
        }
    }
}

impl View for Fields {
    type V = FieldsView;

    open spec fn view(&self) -> FieldsView {
        FieldsView {
            project_id: self.project_id@,
            status: self.status@,
            blocked: self.blocked@,
            epic: self.epic@,
            iteration: self.iteration@,
            kind: self.kind@,
            estimate: self.estimate@,
            priority: self.priority@,
            workstream: self.workstream@,
            project_milestone: self.project_milestone@,
        }
    }
}

// ---------------------------------------------------------------------------
// Lookups
// ---------------------------------------------------------------------------

/// The option id of the first option named `name`, if any.
pub open spec fn spec_option_id<V>(opts: Seq<FieldOptionView<V>>, name: Seq<char>) -> Option<
    Seq<char>,
>
    decreases opts.len(),
{
    if opts.len() == 0 {
        None
    } else if opts[0].value == name {
        Some(opts[0].id)
    } else {
        spec_option_id(opts.drop_first(), name)
    }
}

/// The name of the first option with id `id`, if any.
pub open spec fn spec_option_name<V>(opts: Seq<FieldOptionView<V>>, id: Seq<char>) -> Option<
    Seq<char>,
>
    decreases opts.len(),
{
    if opts.len() == 0 {
        None
    } else if opts[0].id == id {
        Some(opts[0].value)
    } else {
        spec_option_name(opts.drop_first(), id)
    }
}

proof fn lemma_option_id_found<V>(opts: Seq<FieldOptionView<V>>, name: Seq<char>, i: int)
    requires
        0 <= i < opts.len(),
        opts[i].value == name,
        forall|j: int| 0 <= j < i ==> opts[j].value != name,
    ensures
        spec_option_id(opts, name) == Some(opts[i].id),
    decreases i,
{
    if i > 0 {
        lemma_option_id_found(opts.drop_first(), name, i - 1);
    }
}

proof fn lemma_option_id_missing<V>(opts: Seq<FieldOptionView<V>>, name: Seq<char>)
    requires
        forall|j: int| 0 <= j < opts.len() ==> opts[j].value != name,
    ensures
        spec_option_id(opts, name) is None,
    decreases opts.len(),
{
    if opts.len() > 0 {
        lemma_option_id_missing(opts.drop_first(), name);
    }
}

proof fn lemma_option_name_found<V>(opts: Seq<FieldOptionView<V>>, id: Seq<char>, i: int)
    requires
        0 <= i < opts.len(),
        opts[i].id == id,
        forall|j: int| 0 <= j < i ==> opts[j].id != id,
    ensures
        spec_option_name(opts, id) == Some(opts[i].value),
    decreases i,
{
    if i > 0 {
        lemma_option_name_found(opts.drop_first(), id, i - 1);
    }
}

proof fn lemma_option_name_missing<V>(opts: Seq<FieldOptionView<V>>, id: Seq<char>)
    requires
        forall|j: int| 0 <= j < opts.len() ==> opts[j].id != id,
    ensures
        spec_option_name(opts, id) is None,
    decreases opts.len(),
{
    if opts.len() > 0 {
        lemma_option_name_missing(opts.drop_first(), id);
    }
}

/// Character equality of a string slice and an owned string.
pub fn str_eq_string(a: &str, b: &String) -> (r: bool)
    ensures
        r == (a@ == b@),
{
    *b == a.to_owned()
}

impl<T: View> Field<T> {
    /// Looks an option up by name and hands back its id: the id of the
    /// first option so named, or nothing when the name is absent from the
    /// catalog (or no name was given).
    pub fn option_id(&self, name: Option<&str>) -> (r: Option<&FieldOptionId>)
        ensures
            match name {
                None => r is None,
                Some(n) => match r {
                    Some(id) => spec_option_id(self@.options, n@) == Some(id@),
                    None => spec_option_id(self@.options, n@) is None,
                },
            },
    {
        if let Some(n) = name {
            let ghost opts = self@.options;
            let mut i: usize = 0;
            while i < self.options.len()
                invariant
                    name == Some(n),
                    opts == self@.options,
                    i <= self.options.len(),
                    opts.len() == self.options.len(),
                    forall|j: int| 0 <= j < i ==> opts[j].value != n@,
                decreases self.options.len() - i,
            {
                if str_eq_string(n, &self.options[i].value) {
                    proof {
                        lemma_option_id_found(opts, n@, i as int);
                    }
                    return Some(&self.options[i].id);
                }
                i += 1;
            }
            proof {
                lemma_option_id_missing(opts, n@);
            }
            None
        } else {
            None
        }
    }

    /// Looks an option up by id and hands back its name: the name of the
    /// first option with that id, or nothing when the id is absent from the
    /// catalog (or no id was given).
    pub fn option_name(&self, id: Option<&FieldOptionId>) -> (r: Option<&str>)
        ensures
            match id {
                None => r is None,
                Some(x) => match r {
                    Some(n) => spec_option_name(self@.options, x@) == Some(n@),
                    None => spec_option_name(self@.options, x@) is None,
                },
            },
    {
        if let Some(x) = id {
            let ghost opts = self@.options;
            let mut i: usize = 0;
            while i < self.options.len()
                invariant
                    id == Some(x),
                    opts == self@.options,
                    i <= self.options.len(),
                    opts.len() == self.options.len(),
                    forall|j: int| 0 <= j < i ==> opts[j].id != x@,
                decreases self.options.len() - i,
            {
                if self.options[i].id == *x {
                    proof {
                        lemma_option_name_found(opts, x@, i as int);
                    }
                    return Some(self.options[i].value.as_str());
                }
                i += 1;
            }
            proof {
                lemma_option_name_missing(opts, x@);
            }
            None
        } else {
            None
        }
    }

    /// The position of the option with the given id in the catalog's order,
    /// or `usize::MAX` when the id is absent or none was given.  Used to
    /// order values by their configured option order.
    pub fn option_index(&self, id: Option<&FieldOptionId>) -> (r: usize)
        ensures
            match id {
                None => r == usize::MAX,
                Some(x) => {
                    ||| {
                        &&& r == usize::MAX
                        &&& forall|j: int|
                            0 <= j < self@.options.len() ==> self@.options[j].id != x@
                    }
                    ||| {
                        &&& r < self@.options.len()
                        &&& self@.options[r as int].id == x@
                        &&& forall|j: int| 0 <= j < r ==> self@.options[j].id != x@
                    }
                },
            },
    {
        if let Some(x) = id {
            let ghost opts = self@.options;
            let mut i: usize = 0;
            while i < self.options.len()
                invariant
                    id == Some(x),
                    opts == self@.options,
                    i <= self.options.len(),
                    opts.len() == self.options.len(),
                    forall|j: int| 0 <= j < i ==> opts[j].id != x@,
                decreases self.options.len() - i,
            {
                if self.options[i].id == *x {
                    return i;
                }
                i += 1;
            }
            usize::MAX
        } else {
            usize::MAX
        }
    }
}

} // verus!
