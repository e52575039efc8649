//! String-backed identifier types.
//!
//! `WorkItemId` identifies the underlying content (issue, pull request or
//! draft issue); `ProjectItemId` identifies its membership row in the
//! tracking project.  The two identifier spaces are distinct and never
//! interchangeable.  `FieldId` and `FieldOptionId` identify custom fields and
//! their options.  All four are opaque strings; their mathematical view is
//! the character sequence.

use vstd::prelude::*;

verus! {

#[derive(Debug)]
pub struct WorkItemId(pub String);

#[derive(Debug)]
pub struct ProjectItemId(pub String);

#[derive(Debug)]
pub struct FieldId(pub String);

#[derive(Debug)]
pub struct FieldOptionId(pub String);

impl View for WorkItemId {
    type V = Seq<char>;

    open spec fn view(&self) -> Seq<char> {
        self.0@
    }
}

impl View for ProjectItemId {
    type V = Seq<char>;

    open spec fn view(&self) -> Seq<char> {
        self.0@
    }
}

impl View for FieldId {
    type V = Seq<char>;

    open spec fn view(&self) -> Seq<char> {
        self.0@
    }
}

impl View for FieldOptionId {
    type V = Seq<char>;

    open spec fn view(&self) -> Seq<char> {
        self.0@
    }
}

impl Clone for WorkItemId {
    fn clone(&self) -> (res: Self)
        ensures
            res@ == self@,
    {
        WorkItemId(self.0.clone())
    }
}

impl Clone for ProjectItemId {
    fn clone(&self) -> (res: Self)
        ensures
            res@ == self@,
    {
        ProjectItemId(self.0.clone())
    }
}

impl Clone for FieldId {
    fn clone(&self) -> (res: Self)
        ensures
            res@ == self@,
    {
        FieldId(self.0.clone())
    }
}

impl Clone for FieldOptionId {
    fn clone(&self) -> (res: Self)
        ensures
            res@ == self@,
    {
        FieldOptionId(self.0.clone())
    }
}

impl PartialEq for WorkItemId {
    fn eq(&self, other: &Self) -> (r: bool) {
        self.0 == other.0
    }
}

impl vstd::std_specs::cmp::PartialEqSpecImpl for WorkItemId {
    open spec fn obeys_eq_spec() -> bool {
        true
    }

    open spec fn eq_spec(&self, other: &Self) -> bool {
        self@ == other@
    }
}

impl PartialEq for ProjectItemId {
    fn eq(&self, other: &Self) -> (r: bool) {
        self.0 == other.0
    }
}

impl vstd::std_specs::cmp::PartialEqSpecImpl for ProjectItemId {
    open spec fn obeys_eq_spec() -> bool {
        true
    }

    open spec fn eq_spec(&self, other: &Self) -> bool {
        self@ == other@
    }
}

impl PartialEq for FieldId {
    fn eq(&self, other: &Self) -> (r: bool) {
        self.0 == other.0
    }
}

impl vstd::std_specs::cmp::PartialEqSpecImpl for FieldId {
    open spec fn obeys_eq_spec() -> bool {
        true
    }

    open spec fn eq_spec(&self, other: &Self) -> bool {
        self@ == other@
    }
}

impl PartialEq for FieldOptionId {
    fn eq(&self, other: &Self) -> (r: bool) {
        self.0 == other.0
    }
}

impl vstd::std_specs::cmp::PartialEqSpecImpl for FieldOptionId {
    open spec fn obeys_eq_spec() -> bool {
        true
    }

    open spec fn eq_spec(&self, other: &Self) -> bool {
        self@ == other@
    }
}

impl From<String> for WorkItemId {
    fn from(value: String) -> (r: Self) {
        WorkItemId(value)
    }
}

impl vstd::std_specs::convert::FromSpecImpl<String> for WorkItemId {
    open spec fn obeys_from_spec() -> bool {
        true
    }

    open spec fn from_spec(value: String) -> Self {
        WorkItemId(value)
    }
}

impl From<String> for ProjectItemId {
    fn from(value: String) -> (r: Self) {
        ProjectItemId(value)
    }
}

impl vstd::std_specs::convert::FromSpecImpl<String> for ProjectItemId {
    open spec fn obeys_from_spec() -> bool {
        true
    }

    open spec fn from_spec(value: String) -> Self {
        ProjectItemId(value)
    }
}

/// The view of a sequence of work-item ids: each id replaced by its
/// character sequence.
pub open spec fn ids_view(s: Seq<WorkItemId>) -> Seq<Seq<char>> {
    s.map_values(|id: WorkItemId| id@)
}

/// The view of an optional id.
pub open spec fn opt_id_view(o: Option<WorkItemId>) -> Option<Seq<char>> {
    match o {
        Some(id) => Some(id@),
        None => None,
    }
}

/// The view of an optional field-option id.
pub open spec fn opt_option_id_view(o: Option<FieldOptionId>) -> Option<Seq<char>> {
    match o {
        Some(id) => Some(id@),
        None => None,
    }
}

/// The view of a sequence of strings.
pub open spec fn strings_view(s: Seq<String>) -> Seq<Seq<char>> {
    s.map_values(|x: String| x@)
}

/// Whether `s` holds an id whose view is `id`.
pub open spec fn ids_contain(s: Seq<WorkItemId>, id: Seq<char>) -> bool {
    ids_view(s).contains(id)
}

/// Clones a vector of work-item ids, preserving the view.
pub fn clone_ids(v: &Vec<WorkItemId>) -> (r: Vec<WorkItemId>)
    ensures
        ids_view(r@) == ids_view(v@),
{
    let mut r: Vec<WorkItemId> = Vec::new();
    let mut i: usize = 0;
    while i < v.len()
        invariant
            i <= v.len(),
            r.len() == i,
            forall|j: int| 0 <= j < i ==> ids_view(r@)[j] == ids_view(v@)[j],
        decreases v.len() - i,
    {
        r.push(v[i].clone());
        i += 1;
    }
    assert(ids_view(r@) =~= ids_view(v@));
    r
}

/// Clones a vector of strings, preserving the view.
pub fn clone_strings(v: &Vec<String>) -> (r: Vec<String>)
    ensures
        strings_view(r@) == strings_view(v@),
{
    let mut r: Vec<String> = Vec::new();
    let mut i: usize = 0;
    while i < v.len()
        invariant
            i <= v.len(),
            r.len() == i,
            forall|j: int| 0 <= j < i ==> strings_view(r@)[j] == strings_view(v@)[j],
        decreases v.len() - i,
    {
        r.push(v[i].clone());
        i += 1;
    }
    assert(strings_view(r@) =~= strings_view(v@));
    r
}

/// Whether the vector holds an id with the same characters as `id`.
pub fn ids_contain_exec(v: &Vec<WorkItemId>, id: &WorkItemId) -> (r: bool)
    ensures
        r == ids_contain(v@, id@),
{
    let mut i: usize = 0;
    while i < v.len()
        invariant
            i <= v.len(),
            forall|j: int| 0 <= j < i ==> ids_view(v@)[j] != id@,
        decreases v.len() - i,
    {
        if v[i] == *id {
            assert(ids_view(v@)[i as int] == id@);
            return true;
        }
        i += 1;
    }
    assert(forall|j: int| 0 <= j < ids_view(v@).len() ==> ids_view(v@)[j] != id@);
    false
}

/// Equality of two id vectors, by characters, order included.
pub fn ids_eq(a: &Vec<WorkItemId>, b: &Vec<WorkItemId>) -> (r: bool)
    ensures
        r == (ids_view(a@) == ids_view(b@)),
{
    if a.len() != b.len() {
        assert(ids_view(a@).len() != ids_view(b@).len());
        return false;
    }
    let mut i: usize = 0;
    while i < a.len()
        invariant
            i <= a.len(),
            a.len() == b.len(),
            forall|j: int| 0 <= j < i ==> ids_view(a@)[j] == ids_view(b@)[j],
        decreases a.len() - i,
    {
        if !(a[i] == b[i]) {
            assert(ids_view(a@)[i as int] != ids_view(b@)[i as int]);
            return false;
        }
        i += 1;
    }
    assert(ids_view(a@) =~= ids_view(b@));
    true
}

/// Equality of two string vectors, by characters, order included.
pub fn strings_eq(a: &Vec<String>, b: &Vec<String>) -> (r: bool)
    ensures
        r == (strings_view(a@) == strings_view(b@)),
{
    if a.len() != b.len() {
        assert(strings_view(a@).len() != strings_view(b@).len());
        return false;
    }
    let mut i: usize = 0;
    while i < a.len()
        invariant
            i <= a.len(),
            a.len() == b.len(),
            forall|j: int| 0 <= j < i ==> strings_view(a@)[j] == strings_view(b@)[j],
        decreases a.len() - i,
    {
        if !(a[i] == b[i]) {
            assert(strings_view(a@)[i as int] != strings_view(b@)[i as int]);
            return false;
        }
        i += 1;
    }
    assert(strings_view(a@) =~= strings_view(b@));
    true
}

/// Equality of two optional work-item ids, by characters.
pub fn opt_id_eq(a: &Option<WorkItemId>, b: &Option<WorkItemId>) -> (r: bool)
    ensures
        r == (opt_id_view(*a) == opt_id_view(*b)),
{
    match (a, b) {
        (None, None) => true,
        (Some(x), Some(y)) => x == y,
        _ => false,
    }
}

/// Equality of two optional field-option ids, by characters.
pub fn opt_option_id_eq(a: &Option<FieldOptionId>, b: &Option<FieldOptionId>) -> (r: bool)
    ensures
        r == (opt_option_id_view(*a) == opt_option_id_view(*b)),
{
    match (a, b) {
        (None, None) => true,
        (Some(x), Some(y)) => x == y,
        _ => false,
    }
}

/// Clone of an optional field-option id, preserving the view.
pub fn clone_opt_option_id(a: &Option<FieldOptionId>) -> (r: Option<FieldOptionId>)
    ensures
        opt_option_id_view(r) == opt_option_id_view(*a),
{
    match a {
        Some(x) => Some(x.clone()),
        None => None,
    }
}

/// Clone of an optional work-item id, preserving the view.
pub fn clone_opt_id(a: &Option<WorkItemId>) -> (r: Option<WorkItemId>)
    ensures
        opt_id_view(r) == opt_id_view(*a),
{
    match a {
        Some(x) => Some(x.clone()),
        None => None,
    }
}

} // verus!
