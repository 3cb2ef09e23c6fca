//! Version descriptors and how a child is composed with its parent.
//!
//! A descriptor is a list of named fields. Where a name occurs twice in one
//! descriptor, the first field of that name counts.

use vstd::prelude::*;
use vstd::string::*;
use crate::error::{text_outcome, LauncherError, LauncherErrorView};
use crate::search::{
    first_index,
    lemma_first_index,
    lemma_first_index_agree,
    lemma_first_index_is,
    lemma_first_index_none,
};
use crate::text::{same_text, texts};

verus! {

/// The value of a field: one text, or a list of texts.
#[derive(Debug, Clone, PartialEq, Eq)]
pub enum FieldValue {
    Scalar(String),
    List(Vec<String>),
}

/// A value, as plain values.
pub enum FieldValueView {
    Scalar(Seq<char>),
    List(Seq<Seq<char>>),
}

impl View for FieldValue {
    type V = FieldValueView;

    open spec fn view(&self) -> FieldValueView {
        match self {
            FieldValue::Scalar(text) => FieldValueView::Scalar(text@),
            FieldValue::List(items) => FieldValueView::List(texts(items@)),
        }
    }
}

/// One named field of a descriptor.
#[derive(Debug, Clone, PartialEq, Eq)]
pub struct Field {
    pub name: String,
    pub value: FieldValue,
}

/// A field, as plain values.
pub struct FieldView {
    pub name: Seq<char>,
    pub value: FieldValueView,
}

impl View for Field {
    type V = FieldView;

    open spec fn view(&self) -> FieldView {
        FieldView { name: self.name@, value: self.value@ }
    }
}

/// How to run one version: its fields, and the name of the descriptor that
/// it builds on, if it builds on one.
#[derive(Debug, Clone, PartialEq, Eq)]
pub struct VersionDescriptor {
    pub id: String,
    pub inherits_from: Option<String>,
    pub fields: Vec<Field>,
}

/// A descriptor, as plain values.
pub struct VersionDescriptorView {
    pub id: Seq<char>,
    pub inherits_from: Option<Seq<char>>,
    pub fields: Seq<FieldView>,
}

/// The fields of a sequence, as plain values.
pub open spec fn field_views(fields: Seq<Field>) -> Seq<FieldView> {
    Seq::new(fields.len(), |i: int| fields[i]@)
}

/// A text that may be missing, as a plain value.
pub open spec fn optional_text(text: Option<String>) -> Option<Seq<char>> {
    match text {
        Some(t) => Some(t@),
        None => None,
    }
}

impl View for VersionDescriptor {
    type V = VersionDescriptorView;

    open spec fn view(&self) -> VersionDescriptorView {
        VersionDescriptorView {
            id: self.id@,
            inherits_from: optional_text(self.inherits_from),
            fields: field_views(self.fields@),
        }
    }
}

/// One known version: its id and where its descriptor is.
#[derive(Debug, Clone, PartialEq, Eq)]
pub struct CatalogEntry {
    pub id: String,
    pub url: String,
}

/// The position of the first field called `name`.
pub open spec fn field_position(fields: Seq<FieldView>, name: Seq<char>) -> Option<int> {
    first_index(|i: int| fields[i].name == name, 0, fields.len() as int)
}

/// The value of the field called `name`: that of the first one of that
/// name.
pub open spec fn field_value(fields: Seq<FieldView>, name: Seq<char>) -> Option<FieldValueView> {
    match field_position(fields, name) {
        Some(i) => Some(fields[i].value),
        None => None,
    }
}

/// The value of a child's field, given what the parent has under the same
/// name: two lists are joined, the child's first; in every other case the
/// child's value stands.
pub open spec fn merged_value(child: FieldValueView, parent: Option<FieldValueView>) -> FieldValueView {
    match (child, parent) {
        (FieldValueView::List(own), Some(FieldValueView::List(inherited))) => FieldValueView::List(
            own + inherited,
        ),
        _ => child,
    }
}

/// The child's fields, each merged with the parent's field of its name.
pub open spec fn own_fields(child: Seq<FieldView>, parent: Seq<FieldView>) -> Seq<FieldView> {
    Seq::new(
        child.len(),
        |i: int|
            FieldView {
                name: child[i].name,
                value: merged_value(child[i].value, field_value(parent, child[i].name)),
            },
    )
}

/// The parent's fields whose name the child does not have, in the parent's
/// order.
pub open spec fn inherited_fields(child: Seq<FieldView>, parent: Seq<FieldView>) -> Seq<FieldView>
    decreases parent.len(),
{
    if parent.len() == 0 {
        Seq::<FieldView>::empty()
    } else {
        let before = inherited_fields(child, parent.drop_last());
        if field_position(child, parent.last().name) is None {
            before.push(parent.last())
        } else {
            before
        }
    }
}

/// The fields of a child composed with its parent: the child's own, merged,
/// and behind them what only the parent has.
pub open spec fn merged_fields(child: Seq<FieldView>, parent: Seq<FieldView>) -> Seq<FieldView> {
    own_fields(child, parent) + inherited_fields(child, parent)
}

/// The text of the failure for a parent that has a parent of its own.
pub open spec fn nested_parent_message(parent_id: Seq<char>) -> Seq<char> {
    "inherited version profile "@ + parent_id + " inherits from another profile"@
}

/// The text of the failure for a parent that the catalog does not have.
pub open spec fn unknown_parent_message(parent_id: Seq<char>) -> Seq<char> {
    "unable to find inherited version profile "@ + parent_id
}

/// A child composed with its parent. The result builds on nothing. A parent
/// that itself builds on another descriptor is refused.
pub open spec fn spec_merge(child: VersionDescriptorView, parent: VersionDescriptorView) -> Result<
    VersionDescriptorView,
    LauncherErrorView,
> {
    if parent.inherits_from is Some {
        Err(LauncherErrorView::InvalidDescriptor(nested_parent_message(parent.id)))
    } else {
        Ok(
            VersionDescriptorView {
                id: child.id,
                inherits_from: None,
                fields: merged_fields(child.fields, parent.fields),
            },
        )
    }
}

/// Where the descriptor of the version called `id` is: the URL of the first
/// catalog entry with that id.
pub open spec fn spec_find_inherited_url(catalog: Seq<CatalogEntry>, id: Seq<char>) -> Result<
    Seq<char>,
    LauncherErrorView,
> {
    match first_index(|i: int| catalog[i].id@ == id, 0, catalog.len() as int) {
        Some(i) => Ok(catalog[i].url@),
        None => Err(LauncherErrorView::InvalidDescriptor(unknown_parent_message(id))),
    }
}

/// Where the descriptor of the version called `id` is.
///
/// Fails with `InvalidDescriptor` where the catalog has no version of that
/// id.
pub fn find_inherited_url(catalog: &Vec<CatalogEntry>, id: &str) -> (r: Result<
    String,
    LauncherError,
>)
    ensures
        text_outcome(r) == spec_find_inherited_url(catalog@, id@),
{
    let ghost known = |i: int| catalog@[i].id@ == id@;
    let n: usize = catalog.len();
    let mut i: usize = 0;
    while i < n
        invariant
            i <= n,
            n == catalog.len(),
            known == (|i: int| catalog@[i].id@ == id@),
            first_index(known, 0, n as int) == first_index(known, i as int, n as int),
        decreases n - i,
    {
        if same_text(catalog[i].id.as_str(), id) {
            assert(known(i as int));
            return Ok(catalog[i].url.clone());
        }
        assert(!known(i as int));
        i += 1;
    }
    let mut message: String = "unable to find inherited version profile ".to_owned();
    message.append(id);
    Err(LauncherError::InvalidDescriptor(message))
}

/// A copy of a list of texts.
fn copy_texts(items: &Vec<String>) -> (r: Vec<String>)
    ensures
        texts(r@) == texts(items@),
{
    let mut out: Vec<String> = Vec::new();
    let n: usize = items.len();
    let mut i: usize = 0;
    while i < n
        invariant
            i <= n,
            n == items.len(),
            texts(out@) == texts(items@).take(i as int),
        decreases n - i,
    {
        let ghost before = out@;
        out.push(items[i].clone());
        proof {
            assert(texts(before).len() == i);
            assert(texts(items@).len() == n);
            assert forall|k: int| 0 <= k < i + 1 implies texts(out@)[k] == texts(items@).take(
                i + 1,
            )[k] by {
                if k < i {
                    assert(texts(before)[k] == texts(items@).take(i as int)[k]);
                }
            }
            assert(texts(out@) =~= texts(items@).take(i + 1));
        }
        i += 1;
    }
    proof {
        assert(texts(items@).take(n as int) =~= texts(items@));
    }
    out
}

/// The texts of `items` put behind those of `out`.
fn append_texts(out: &mut Vec<String>, items: &Vec<String>)
    ensures
        texts(final(out)@) == texts(old(out)@) + texts(items@),
{
    let n: usize = items.len();
    let mut i: usize = 0;
    proof {
        assert(texts(out@) =~= texts(old(out)@) + texts(items@).take(0));
    }
    while i < n
        invariant
            i <= n,
            n == items.len(),
            texts(out@) == texts(old(out)@) + texts(items@).take(i as int),
        decreases n - i,
    {
        let ghost before = out@;
        out.push(items[i].clone());
        proof {
            let start = old(out)@.len() as int;
            assert(texts(before).len() == start + i);
            assert forall|k: int| 0 <= k < start + i + 1 implies texts(out@)[k] == (texts(
                old(out)@,
            ) + texts(items@).take(i + 1))[k] by {
                if k < start + i {
                    assert(texts(before)[k] == (texts(old(out)@) + texts(items@).take(i as int))[k]);
                }
            }
            assert(texts(out@) =~= texts(old(out)@) + texts(items@).take(i + 1));
        }
        i += 1;
    }
    proof {
        assert(texts(items@).take(n as int) =~= texts(items@));
    }
}

impl FieldValue {
    /// A second value that says the same.
    pub fn duplicate(&self) -> (r: Self)
        ensures
            r@ == self@,
    {
        match self {
            FieldValue::Scalar(text) => FieldValue::Scalar(text.clone()),
            FieldValue::List(items) => FieldValue::List(copy_texts(items)),
        }
    }

    /// The value for a child that has `self`, given what the parent has
    /// under the same name.
    pub fn merged_with(&self, parent: Option<&FieldValue>) -> (r: Self)
        ensures
            r@ == merged_value(
                self@,
                match parent {
                    Some(p) => Some(p@),
                    None => None,
                },
            ),
    {
        match (self, parent) {
            (FieldValue::List(own), Some(FieldValue::List(inherited))) => {
                let mut all: Vec<String> = copy_texts(own);
                append_texts(&mut all, inherited);
                FieldValue::List(all)
            },
            _ => self.duplicate(),
        }
    }
}

impl VersionDescriptor {
    /// The value of the field called `name`, if the descriptor has one.
    pub fn field(&self, name: &str) -> (r: Option<&FieldValue>)
        ensures
            match r {
                Some(value) => field_value(self@.fields, name@) == Some(value@),
                None => field_value(self@.fields, name@) is None,
            },
    {
        let ghost views = field_views(self.fields@);
        let ghost named = |i: int| views[i].name == name@;
        let n: usize = self.fields.len();
        let mut i: usize = 0;
        while i < n
            invariant
                i <= n,
                n == self.fields.len(),
                views == field_views(self.fields@),
                named == (|i: int| views[i].name == name@),
                first_index(named, 0, n as int) == first_index(named, i as int, n as int),
            decreases n - i,
        {
            assert(views[i as int] == self.fields@[i as int]@);
            if same_text(self.fields[i].name.as_str(), name) {
                assert(named(i as int));
                return Some(&self.fields[i].value);
            }
            assert(!named(i as int));
            i += 1;
        }
        None
    }

    /// Composes the descriptor with its parent: its own fields stand, two
    /// lists of one name are joined with its own first, and fields that only
    /// the parent has are added. Afterwards the descriptor builds on
    /// nothing.
    ///
    /// Fails with `InvalidDescriptor`, and changes nothing, where the parent
    /// itself builds on another descriptor.
    pub fn merge(&mut self, parent: VersionDescriptor) -> (r: Result<(), LauncherError>)
        ensures
            match spec_merge(old(self)@, parent@) {
                Ok(merged) => r is Ok && final(self)@ == merged,
                Err(e) => r matches Err(failure) && failure@ == e && *final(self) == *old(self),
            },
    {
        if parent.inherits_from.is_some() {
            let mut message: String = "inherited version profile ".to_owned();
            message.append(parent.id.as_str());
            message.append(" inherits from another profile");
            return Err(LauncherError::InvalidDescriptor(message));
        }
        let ghost child = self@.fields;
        let ghost elder = parent@.fields;
        let mut fields: Vec<Field> = Vec::new();
        let n: usize = self.fields.len();
        let mut i: usize = 0;
        while i < n
            invariant
                i <= n,
                n == self.fields.len(),
                child == field_views(self.fields@),
                elder == field_views(parent.fields@),
                *self == *old(self),
                field_views(fields@) == own_fields(child, elder).take(i as int),
            decreases n - i,
        {
            let own: &Field = &self.fields[i];
            assert(child[i as int] == own@);
            let theirs: Option<&FieldValue> = parent.field(own.name.as_str());
            let value: FieldValue = own.value.merged_with(theirs);
            let ghost before = fields@;
            let merged: Field = Field { name: own.name.clone(), value };
            proof {
                assert(merged@ == own_fields(child, elder)[i as int]);
            }
            fields.push(merged);
            proof {
                assert(field_views(before).len() == i);
                assert(own_fields(child, elder).len() == n);
                assert forall|k: int| 0 <= k < i + 1 implies field_views(fields@)[k] == own_fields(
                    child,
                    elder,
                ).take(i + 1)[k] by {
                    if k < i {
                        assert(field_views(before)[k] == own_fields(child, elder).take(i as int)[k]);
                    }
                }
                assert(field_views(fields@) =~= own_fields(child, elder).take(i + 1));
            }
            i += 1;
        }
        proof {
            assert(own_fields(child, elder).take(n as int) =~= own_fields(child, elder));
            assert(elder.take(0) =~= Seq::<FieldView>::empty());
            assert(field_views(fields@) =~= own_fields(child, elder) + inherited_fields(
                child,
                elder.take(0),
            ));
        }
        let m: usize = parent.fields.len();
        let mut j: usize = 0;
        while j < m
            invariant
                j <= m,
                m == parent.fields.len(),
                child == field_views(self.fields@),
                elder == field_views(parent.fields@),
                *self == *old(self),
                field_views(fields@) == own_fields(child, elder) + inherited_fields(
                    child,
                    elder.take(j as int),
                ),
            decreases m - j,
        {
            let theirs: &Field = &parent.fields[j];
            proof {
                assert(elder[j as int] == theirs@);
                assert(elder.take(j + 1).drop_last() =~= elder.take(j as int));
                assert(elder.take(j + 1).last() == elder[j as int]);
            }
            let shadowed: bool = self.field(theirs.name.as_str()).is_some();
            let ghost before = fields@;
            let ghost kept = inherited_fields(child, elder.take(j as int));
            proof {
                assert(shadowed == (field_position(child, elder[j as int].name) is Some));
            }
            if !shadowed {
                let taken: Field = Field {
                    name: theirs.name.clone(),
                    value: theirs.value.duplicate(),
                };
                proof {
                    assert(taken@ == elder[j as int]);
                }
                fields.push(taken);
                proof {
                    let want = own_fields(child, elder) + kept.push(elder[j as int]);
                    assert(field_views(before).len() == own_fields(child, elder).len()
                        + kept.len());
                    assert forall|k: int| 0 <= k < want.len() implies field_views(fields@)[k]
                        == want[k] by {
                        if k < want.len() - 1 {
                            assert(field_views(before)[k] == (own_fields(child, elder) + kept)[k]);
                        }
                    }
                    assert(field_views(fields@) =~= want);
                }
            }
            j += 1;
        }
        proof {
            assert(elder.take(m as int) =~= elder);
        }
        self.fields = fields;
        self.inherits_from = None;
        Ok(())
    }
}

/// In two lists put together, a name is found in the first, or else in the
/// second.
pub proof fn lemma_position_in_both(a: Seq<FieldView>, b: Seq<FieldView>, name: Seq<char>)
    ensures
        field_position(a + b, name) == (match field_position(a, name) {
            Some(i) => Some(i),
            None => match field_position(b, name) {
                Some(j) => Some(a.len() + j),
                None => None,
            },
        }),
{
    let all = a + b;
    let in_all = |i: int| all[i].name == name;
    let in_a = |i: int| a[i].name == name;
    let in_b = |i: int| b[i].name == name;
    lemma_first_index(in_a, 0, a.len() as int);
    lemma_first_index(in_b, 0, b.len() as int);
    match field_position(a, name) {
        Some(i) => {
            assert forall|k: int| 0 <= k < i implies !(#[trigger] in_all(k)) by {
                assert(!in_a(k));
            }
            assert(in_a(i));
            assert(in_all(i));
            lemma_first_index_is(in_all, 0, all.len() as int, i);
        },
        None => match field_position(b, name) {
            Some(j) => {
                let at = a.len() + j;
                assert forall|k: int| 0 <= k < at implies !(#[trigger] in_all(k)) by {
                    if k < a.len() {
                        assert(!in_a(k));
                    } else {
                        assert(!in_b(k - a.len()));
                    }
                }
                assert(in_b(j));
                assert(in_all(at));
                lemma_first_index_is(in_all, 0, all.len() as int, at);
            },
            None => {
                assert forall|k: int| 0 <= k < all.len() implies !(#[trigger] in_all(k)) by {
                    if k < a.len() {
                        assert(!in_a(k));
                    } else {
                        assert(!in_b(k - a.len()));
                    }
                }
                lemma_first_index_none(in_all, 0, all.len() as int);
            },
        },
    }
}

/// In a list of one field, a name is found exactly where it is the
/// field's name.
pub proof fn lemma_position_in_one(field: FieldView, name: Seq<char>)
    ensures
        field_position(seq![field], name) == (if field.name == name {
            Some(0int)
        } else {
            None
        }),
{
    let one = seq![field];
    let named = |i: int| one[i].name == name;
    if field.name == name {
        assert(named(0));
        lemma_first_index_is(named, 0, 1, 0);
    } else {
        assert forall|k: int| 0 <= k < 1 implies !(#[trigger] named(k)) by {}
        lemma_first_index_none(named, 0, 1);
    }
}

/// A position that is found is one of the list's, and the field there has
/// the name.
pub proof fn lemma_position_found(fields: Seq<FieldView>, name: Seq<char>)
    ensures
        field_position(fields, name) matches Some(i) ==> 0 <= i < fields.len() && fields[i].name
            == name,
{
    let named = |i: int| fields[i].name == name;
    lemma_first_index(named, 0, fields.len() as int);
    match field_position(fields, name) {
        Some(i) => {
            assert(named(i));
        },
        None => {},
    }
}

/// Of a name that the child does not have, the fields taken over from the
/// parent say what the parent says.
pub proof fn lemma_inherited_value(child: Seq<FieldView>, parent: Seq<FieldView>, name: Seq<char>)
    requires
        field_position(child, name) is None,
    ensures
        field_value(inherited_fields(child, parent), name) == field_value(parent, name),
    decreases parent.len(),
{
    if parent.len() == 0 {
    } else {
        let front = parent.drop_last();
        let last = parent.last();
        let before = inherited_fields(child, front);
        lemma_inherited_value(child, front, name);
        assert(parent =~= front + seq![last]);
        lemma_position_in_both(front, seq![last], name);
        lemma_position_in_one(last, name);
        lemma_position_found(front, name);
        lemma_position_found(before, name);
        match field_position(front, name) {
            Some(i) => {
                assert(parent[i] == front[i]);
            },
            None => {},
        }
        if field_position(child, last.name) is None {
            assert(inherited_fields(child, parent) == before.push(last));
            assert(before.push(last) =~= before + seq![last]);
            lemma_position_in_both(before, seq![last], name);
            match field_position(before, name) {
                Some(i) => {
                    assert((before + seq![last])[i] == before[i]);
                },
                None => {
                    if last.name == name {
                        assert((before + seq![last])[before.len() as int] == last);
                        assert(parent[front.len() as int] == last);
                    }
                },
            }
        } else {
            assert(last.name != name);
            assert(inherited_fields(child, parent) == before);
        }
    }
}

/// Composition field by field: under every name the composed descriptor has
/// the child's value where the child has one, merged with the parent's, and
/// else the parent's value, if the parent has one.
pub proof fn lemma_merged_field(child: Seq<FieldView>, parent: Seq<FieldView>, name: Seq<char>)
    ensures
        field_value(merged_fields(child, parent), name) == (match field_value(child, name) {
            Some(own) => Some(merged_value(own, field_value(parent, name))),
            None => field_value(parent, name),
        }),
{
    let own = own_fields(child, parent);
    let rest = inherited_fields(child, parent);
    let all = own + rest;
    lemma_position_in_both(own, rest, name);
    let in_own = |i: int| own[i].name == name;
    let in_child = |i: int| child[i].name == name;
    assert forall|k: int| 0 <= k < child.len() implies (#[trigger] in_own(k)) == (#[trigger] in_child(
        k,
    )) by {}
    lemma_first_index_agree(in_own, in_child, 0, child.len() as int);
    assert(field_position(own, name) == field_position(child, name));
    lemma_position_found(child, name);
    lemma_position_found(rest, name);
    match field_position(child, name) {
        Some(i) => {
            assert(all[i] == own[i]);
            assert(own[i].value == merged_value(child[i].value, field_value(parent, name)));
        },
        None => {
            lemma_inherited_value(child, parent, name);
            match field_position(rest, name) {
                Some(j) => {
                    assert(all[own.len() + j] == rest[j]);
                },
                None => {},
            }
        },
    }
}

} // verus!
