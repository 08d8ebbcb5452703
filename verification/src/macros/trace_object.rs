//! How a plan traces an object: which of its fields are spaces, and in which order they are asked.
//!
//! A plan is a struct. A field marked `trace` is a space, and may say with which semantics its
//! objects are copied. The field marked `main_policy` decides how objects are scanned, and the
//! field marked `fallback_trace` is a plan that is asked when no space has the object.
use crate::macros::derive_input::{
    is_parseable, make_readable, parse_arguments, parse_derive_input, parseable, parsed_arguments,
    parsed_input, readable, Attribute, AttributeArg, AttributeArgView, AttributeView, DeriveInput,
    DeriveInputView, Field, FieldView,
};
use vstd::prelude::*;
use vstd::string::StrSliceExecFns;

verus! {

/// The marks that mean something here.
#[derive(Copy, Clone, PartialEq, Eq, Structural, Debug)]
pub enum AttributeName {
    Trace,
    MainPolicy,
    FallbackTrace,
}

impl AttributeName {
    /// How the mark is written.
    pub open spec fn text(self) -> Seq<char> {
        match self {
            AttributeName::Trace => "trace"@,
            AttributeName::MainPolicy => "main_policy"@,
            AttributeName::FallbackTrace => "fallback_trace"@,
        }
    }

    /// How the mark is written.
    pub fn as_str(self) -> (s: &'static str)
        ensures
            s@ == self.text(),
    {
        match self {
            AttributeName::Trace => "trace",
            AttributeName::MainPolicy => "main_policy",
            AttributeName::FallbackTrace => "fallback_trace",
        }
    }
}

/// Whether two texts are the same.
fn same_text(a: &str, b: &str) -> (same: bool)
    ensures
        same == (a@ == b@),
{
    let n: usize = a.unicode_len();
    if n != b.unicode_len() {
        return false;
    }
    let mut i: usize = 0;
    while i < n
        invariant
            i <= n,
            n == a@.len(),
            n == b@.len(),
            forall|j: int| 0 <= j < i ==> a@[j] == b@[j],
        decreases n - i,
    {
        if a.get_char(i) != b.get_char(i) {
            return false;
        }
        i += 1;
    }
    assert(a@ =~= b@);
    true
}

impl AttributeView {
    /// Whether the mark has this name.
    pub open spec fn is(self, name: AttributeName) -> bool {
        self.name == Some(name.text())
    }
}

impl Attribute {
    /// Whether the mark has this name.
    pub fn has_name(&self, name: AttributeName) -> (b: bool)
        ensures
            b == self.deep_view().is(name),
    {
        match &self.name {
            Some(text) => same_text(text.as_str(), name.as_str()),
            None => false,
        }
    }
}

/// Why no code is generated.
#[derive(Copy, Clone, PartialEq, Eq, Structural, Debug)]
pub enum DeriveError {
    /// The text is no type definition.
    Syntax,
    /// Only structs with named fields are supported.
    NotANamedStruct,
    /// A field has a mark twice.
    DuplicatedAttribute(AttributeName),
    /// At most one field can have the mark.
    SeveralFields(AttributeName),
    /// What follows a mark `trace` is not a list of arguments, or has a literal that the parser does
    /// not know.
    InvalidArguments,
}

impl FieldView {
    /// Whether the field has a mark with this name.
    pub open spec fn has(self, name: AttributeName) -> bool {
        exists|i: int| 0 <= i < self.attrs.len() && (#[trigger] self.attrs[i]).is(name)
    }

    /// Whether the field has two marks with this name.
    pub open spec fn has_twice(self, name: AttributeName) -> bool {
        exists|i: int, j: int|
            0 <= i < j < self.attrs.len() && (#[trigger] self.attrs[i]).is(name) && (
            #[trigger] self.attrs[j]).is(name)
    }
}

/// The mark of `field` with this name, by its index, if there is one.
pub fn get_field_attribute(field: &Field, name: AttributeName) -> (r: Result<
    Option<usize>,
    DeriveError,
>)
    ensures
        ({
            let field = field.deep_view();
            match r {
                Err(e) => field.has_twice(name) && e == DeriveError::DuplicatedAttribute(name),
                Ok(None) => !field.has(name),
                Ok(Some(i)) => {
                    &&& !field.has_twice(name)
                    &&& i < field.attrs.len()
                    &&& field.attrs[i as int].is(name)
                    &&& field.has(name)
                },
            }
        }),
{
    let ghost attrs = field.deep_view().attrs;
    let mut found: Option<usize> = None;
    let mut i: usize = 0;
    while i < field.attrs.len()
        invariant
            attrs == field.deep_view().attrs,
            i <= attrs.len(),
            match found {
                None => forall|j: int| 0 <= j < i ==> !(#[trigger] attrs[j]).is(name),
                Some(k) => {
                    &&& k < i
                    &&& attrs[k as int].is(name)
                    &&& forall|j: int| 0 <= j < i && j != k ==> !(#[trigger] attrs[j]).is(name)
                },
            },
        decreases attrs.len() - i,
    {
        assert(attrs[i as int] == field.attrs@[i as int].deep_view());
        if field.attrs[i].has_name(name) {
            if found.is_some() {
                assert(attrs[found->0 as int].is(name));
                assert(attrs[i as int].is(name));
                return Err(DeriveError::DuplicatedAttribute(name));
            }
            found = Some(i);
        }
        i += 1;
    }
    Ok(found)
}

/// Whether `picked` are the indices, in order, of those of the first `n` fields that have the mark.
pub open spec fn picks(
    fields: Seq<FieldView>,
    name: AttributeName,
    n: int,
    picked: Seq<usize>,
) -> bool {
    &&& forall|k: int|
        0 <= k < picked.len() ==> (#[trigger] picked[k]) < n && fields[picked[k] as int].has(name)
    &&& forall|k: int, l: int|
        #![trigger picked[k], picked[l]]
        0 <= k < l < picked.len() ==> picked[k] < picked[l]
    &&& forall|f: int|
        0 <= f < n && (#[trigger] fields[f]).has(name) ==> exists|k: int|
            0 <= k < picked.len() && #[trigger] picked[k] == f
}

/// The fields that have a mark with this name, by their indices.
pub fn get_fields_with_attribute(fields: &Vec<Field>, name: AttributeName) -> (r: Result<
    Vec<usize>,
    DeriveError,
>)
    ensures
        match r {
            Err(e) => {
                &&& e == DeriveError::DuplicatedAttribute(name)
                &&& exists|f: int|
                    0 <= f < fields.deep_view().len() && (
                    #[trigger] fields.deep_view()[f]).has_twice(name)
            },
            Ok(picked) => {
                &&& forall|f: int|
                    0 <= f < fields.deep_view().len() ==> !(#[trigger] fields.deep_view()[f]).has_twice(name)
                &&& picks(fields.deep_view(), name, fields.deep_view().len() as int, picked@)
            },
        },
{
    let mut picked: Vec<usize> = Vec::new();
    let mut i: usize = 0;
    while i < fields.len()
        invariant
            i <= fields.deep_view().len(),
            forall|f: int| 0 <= f < i ==> !(#[trigger] fields.deep_view()[f]).has_twice(name),
            picks(fields.deep_view(), name, i as int, picked@),
        decreases fields.deep_view().len() - i,
    {
        let ghost before = picked@;
        assert(fields.deep_view()[i as int] == fields@[i as int].deep_view());
        match get_field_attribute(&fields[i], name) {
            Err(e) => return Err(e),
            Ok(None) => {},
            Ok(Some(_)) => {
                picked.push(i);
                proof {
                    assert forall|f: int|
                        0 <= f < i + 1 && (#[trigger] fields.deep_view()[f]).has(name) implies exists|k: int|
                        0 <= k < picked@.len() && #[trigger] picked@[k] == f by {
                        if f < i {
                            let k = choose|k: int|
                                0 <= k < before.len() && #[trigger] before[k] == f;
                            assert(picked@[k] == f);
                        } else {
                            assert(picked@[before.len() as int] == f);
                        }
                    }
                }
            },
        }
        proof {
            if picked@ == before {
                assert(!fields.deep_view()[i as int].has(name));
            }
        }
        i += 1;
    }
    Ok(picked)
}

/// Whether no field before the `n`th has the mark twice, and at most one has it.
pub open spec fn at_most_one(fields: Seq<FieldView>, name: AttributeName, n: int) -> bool {
    &&& forall|f: int| 0 <= f < n ==> !(#[trigger] fields[f]).has_twice(name)
    &&& forall|f: int, g: int|
        #![trigger fields[f], fields[g]]
        0 <= f < g < n ==> !(fields[f].has(name) && fields[g].has(name))
}

/// The field that has a mark with this name, by its index, if there is one. There must not be two.
pub fn get_unique_field_with_attribute(fields: &Vec<Field>, name: AttributeName) -> (r: Result<
    Option<usize>,
    DeriveError,
>)
    ensures
        match r {
            Ok(field) => is_unique(fields.deep_view(), name) && is_marked_field(
                fields.deep_view(),
                name,
                field,
            ),
            Err(e) => !is_unique(fields.deep_view(), name) && wrong_mark(
                fields.deep_view(),
                name,
                e,
            ),
        },
{
    let mut result: Option<usize> = None;
    let mut i: usize = 0;
    while i < fields.len()
        invariant
            i <= fields.deep_view().len(),
            at_most_one(fields.deep_view(), name, i as int),
            match result {
                None => forall|f: int| 0 <= f < i ==> !(#[trigger] fields.deep_view()[f]).has(name),
                Some(f) => f < i && fields.deep_view()[f as int].has(name),
            },
        decreases fields.deep_view().len() - i,
    {
        assert(fields.deep_view()[i as int] == fields@[i as int].deep_view());
        match get_field_attribute(&fields[i], name) {
            Err(e) => {
                assert(fields.deep_view()[i as int].has_twice(name));
                assert(!at_most_one(fields.deep_view(), name, fields.deep_view().len() as int));
                return Err(e);
            },
            Ok(None) => {
                assert(!fields.deep_view()[i as int].has(name));
                assert(!fields.deep_view()[i as int].has_twice(name));
            },
            Ok(Some(_)) => {
                match result {
                    Some(f) => {
                        assert(fields.deep_view()[f as int].has(name) && fields.deep_view()[i as int].has(name));
                        assert(!at_most_one(fields.deep_view(), name, i + 1));
                        assert(!at_most_one(fields.deep_view(), name, fields.deep_view().len() as int));
                        return Err(DeriveError::SeveralFields(name));
                    },
                    None => {
                        result = Some(i);
                    },
                }
            },
        }
        i += 1;
    }
    Ok(result)
}

/// One space that is asked: if it has the object, it traces it, and copies it with the semantics
/// named if there are any.
pub struct TraceArm {
    /// The field, by its index.
    pub field: usize,
    /// The path that names the semantics, as its tokens are printed.
    pub copy: Option<String>,
}

/// How an object is traced: by the first of the spaces that has it, or else by the fallback.
pub struct TraceFunction {
    pub arms: Vec<TraceArm>,
    /// The field of the plan that is asked last, by its index.
    pub fallback: Option<usize>,
}

/// A function that asks the main policy of the plan, if it has one.
#[derive(Copy, Clone, PartialEq, Eq, Structural, Debug)]
pub enum MainPolicyFunction {
    /// It does what the policy of this field does.
    Delegate(usize),
    /// It is never called.
    Unreachable,
}

/// The code for a plan.
pub struct PlanTraceObject {
    pub trace_object: TraceFunction,
    pub create_scan_work: MainPolicyFunction,
    pub may_move_objects: MainPolicyFunction,
}

/// The semantics that the arguments of a mark `trace` name: the first one, if that is a path.
pub open spec fn first_path(args: Seq<AttributeArgView>) -> Option<Seq<char>> {
    if args.len() > 0 {
        match args[0] {
            AttributeArgView::Path(p) => Some(p),
            AttributeArgView::Unrelated => None,
        }
    } else {
        None
    }
}

/// The semantics that a mark `trace` names. There are none where nothing follows it.
pub open spec fn named_copy(attribute: AttributeView) -> Option<Seq<char>> {
    match parsed_arguments(attribute.tokens) {
        Some(args) if attribute.tokens.len() > 0 => first_path(args),
        _ => None,
    }
}

/// Whether something follows the mark that is not a list of arguments.
pub open spec fn malformed(attribute: AttributeView) -> bool {
    attribute.tokens.len() > 0 && !(parseable(attribute.tokens) && parsed_arguments(
        attribute.tokens,
    ) is Some)
}

/// Whether something follows a mark `trace` of `field` that is not a list of arguments.
pub open spec fn malformed_trace(field: FieldView) -> bool {
    exists|i: int|
        0 <= i < field.attrs.len() && (#[trigger] field.attrs[i]).is(AttributeName::Trace)
            && malformed(field.attrs[i])
}

/// Whether `arm` asks the space `field`, which is marked `trace`.
pub open spec fn arm_for(fields: Seq<FieldView>, field: usize, arm: TraceArm) -> bool {
    &&& arm.field == field
    &&& exists|i: int|
        0 <= i < fields[field as int].attrs.len() && (
        #[trigger] fields[field as int].attrs[i]).is(AttributeName::Trace) && arm.copy.deep_view()
            == named_copy(fields[field as int].attrs[i])
}

/// The semantics that the arguments of a mark `trace` name: the first one, if that is a path.
pub fn get_first_path(args: &Vec<AttributeArg>) -> (copy: Option<String>)
    ensures
        copy.deep_view() == first_path(args.deep_view()),
{
    let ghost view = args.deep_view();
    if args.len() > 0 {
        assert(view[0] == args@[0].deep_view());
        match &args[0] {
            AttributeArg::Path(p) => Some(p.clone()),
            AttributeArg::Unrelated => None,
        }
    } else {
        None
    }
}

/// The semantics that a mark `trace` names.
fn copy_of(attribute: &Attribute) -> (r: Result<Option<String>, DeriveError>)
    ensures
        match r {
            Ok(copy) => !malformed(attribute.deep_view()) && copy.deep_view() == named_copy(
                attribute.deep_view(),
            ),
            Err(e) => malformed(attribute.deep_view()) && e == DeriveError::InvalidArguments,
        },
{
    if attribute.tokens.as_str().is_empty() {
        return Ok(None);
    }
    if !is_parseable(attribute.tokens.as_str()) {
        return Err(DeriveError::InvalidArguments);
    }
    match parse_arguments(attribute.tokens.as_str()) {
        Ok(args) => Ok(get_first_path(&args)),
        Err(_) => Err(DeriveError::InvalidArguments),
    }
}

/// The code that traces an object, for a plan with these spaces and this fallback.
pub fn generate_trace_object(
    fields: &Vec<Field>,
    space_fields: &Vec<usize>,
    parent_field: Option<usize>,
) -> (r: Result<TraceFunction, DeriveError>)
    requires
        forall|k: int|
            0 <= k < space_fields@.len() ==> (#[trigger] space_fields@[k]) < fields@.len()
                && fields.deep_view()[space_fields@[k] as int].has(AttributeName::Trace)
                && !fields.deep_view()[space_fields@[k] as int].has_twice(AttributeName::Trace),
    ensures
        match r {
            Ok(t) => {
                &&& t.fallback == parent_field
                &&& t.arms@.len() == space_fields@.len()
                &&& forall|k: int|
                    0 <= k < t.arms@.len() ==> arm_for(
                        fields.deep_view(),
                        space_fields@[k],
                        #[trigger] t.arms@[k],
                    )
                &&& forall|k: int|
                    0 <= k < space_fields@.len() ==> !malformed_trace(
                        fields.deep_view()[#[trigger] space_fields@[k] as int],
                    )
            },
            Err(e) => {
                &&& e == DeriveError::InvalidArguments
                &&& exists|k: int|
                    0 <= k < space_fields@.len() && malformed_trace(
                        fields.deep_view()[#[trigger] space_fields@[k] as int],
                    )
            },
        },
{
    let ghost view = fields.deep_view();
    let mut arms: Vec<TraceArm> = Vec::new();
    let mut k: usize = 0;
    while k < space_fields.len()
        invariant
            k <= space_fields@.len(),
            arms@.len() == k,
            view == fields.deep_view(),
            forall|k: int|
                0 <= k < space_fields@.len() ==> (#[trigger] space_fields@[k]) < fields@.len()
                    && view[space_fields@[k] as int].has(AttributeName::Trace)
                    && !view[space_fields@[k] as int].has_twice(AttributeName::Trace),
            forall|l: int| 0 <= l < k ==> arm_for(view, space_fields@[l], #[trigger] arms@[l]),
            forall|l: int|
                0 <= l < k ==> !malformed_trace(view[#[trigger] space_fields@[l] as int]),
        decreases space_fields@.len() - k,
    {
        let f: usize = space_fields[k];
        let ghost field = view[f as int];
        assert(field == fields@[f as int].deep_view());
        match get_field_attribute(&fields[f], AttributeName::Trace) {
            Ok(Some(i)) => {
                assert(field.attrs[i as int] == fields@[f as int].attrs@[i as int].deep_view());
                match copy_of(&fields[f].attrs[i]) {
                    Ok(copy) => {
                        let arm = TraceArm { field: f, copy };
                        assert(arm_for(view, f, arm));
                        arms.push(arm);
                    },
                    Err(e) => {
                        assert(malformed_trace(view[space_fields@[k as int] as int]));
                        return Err(e);
                    },
                }
            },
            _ => {
                assert(false);
            },
        }
        k += 1;
    }
    Ok(TraceFunction { arms, fallback: parent_field })
}

/// The code that creates the work of scanning objects: that of the main policy.
pub fn generate_create_scan_work(scan_work: Option<usize>) -> (m: MainPolicyFunction)
    ensures
        m == (match scan_work {
            Some(f) => MainPolicyFunction::Delegate(f),
            None => MainPolicyFunction::Unreachable,
        }),
{
    match scan_work {
        Some(f) => MainPolicyFunction::Delegate(f),
        None => MainPolicyFunction::Unreachable,
    }
}

/// The code that says whether objects may be moved: that of the main policy.
pub fn generate_may_move_objects(scan_work: Option<usize>) -> (m: MainPolicyFunction)
    ensures
        m == (match scan_work {
            Some(f) => MainPolicyFunction::Delegate(f),
            None => MainPolicyFunction::Unreachable,
        }),
{
    match scan_work {
        Some(f) => MainPolicyFunction::Delegate(f),
        None => MainPolicyFunction::Unreachable,
    }
}

/// Whether `index` is the field with the mark, if there is one.
pub open spec fn is_marked_field(
    fields: Seq<FieldView>,
    name: AttributeName,
    index: Option<usize>,
) -> bool {
    match index {
        Some(f) => f < fields.len() && fields[f as int].has(name),
        None => forall|f: int| 0 <= f < fields.len() ==> !(#[trigger] fields[f]).has(name),
    }
}

/// Whether `code` is the code for a plan with these fields.
pub open spec fn code_for(fields: Seq<FieldView>, code: PlanTraceObject) -> bool {
    &&& exists|picked: Seq<usize>|
        {
            &&& #[trigger] picks(fields, AttributeName::Trace, fields.len() as int, picked)
            &&& code.trace_object.arms@.len() == picked.len()
            &&& forall|k: int|
                0 <= k < picked.len() ==> arm_for(
                    fields,
                    picked[k],
                    #[trigger] code.trace_object.arms@[k],
                )
        }
    &&& is_marked_field(fields, AttributeName::FallbackTrace, code.trace_object.fallback)
    &&& code.may_move_objects == code.create_scan_work
    &&& match code.create_scan_work {
        MainPolicyFunction::Delegate(f) => is_marked_field(
            fields,
            AttributeName::MainPolicy,
            Some(f),
        ),
        MainPolicyFunction::Unreachable => is_marked_field(
            fields,
            AttributeName::MainPolicy,
            None,
        ),
    }
}

/// Whether a field has the mark `trace` twice.
pub open spec fn traced_twice(fields: Seq<FieldView>) -> bool {
    exists|f: int| 0 <= f < fields.len() && (#[trigger] fields[f]).has_twice(AttributeName::Trace)
}

/// Whether the mark is on at most one field, and there once.
pub open spec fn is_unique(fields: Seq<FieldView>, name: AttributeName) -> bool {
    at_most_one(fields, name, fields.len() as int)
}

/// Whether something follows a mark `trace` that is not a list of arguments.
pub open spec fn any_malformed(fields: Seq<FieldView>) -> bool {
    exists|f: int| 0 <= f < fields.len() && malformed_trace(#[trigger] fields[f])
}

/// Whether the marks of the fields make sense.
pub open spec fn well_marked(fields: Seq<FieldView>) -> bool {
    &&& !traced_twice(fields)
    &&& is_unique(fields, AttributeName::MainPolicy)
    &&& is_unique(fields, AttributeName::FallbackTrace)
    &&& !any_malformed(fields)
}

/// Whether `r` is what there is for `input`: code if its marks make sense, and otherwise the first
/// thing that is wrong with them.
pub open spec fn derived(input: DeriveInputView, r: Result<PlanTraceObject, DeriveError>) -> bool {
    match input {
        DeriveInputView::Unsupported => r is Err && r->Err_0 == DeriveError::NotANamedStruct,
        DeriveInputView::NamedStruct { fields } => {
            &&& r is Ok <==> well_marked(fields)
            &&& r matches Ok(code) ==> code_for(fields, code)
            &&& r matches Err(e) ==> if traced_twice(fields) {
                e == DeriveError::DuplicatedAttribute(AttributeName::Trace)
            } else if !is_unique(fields, AttributeName::MainPolicy) {
                wrong_mark(fields, AttributeName::MainPolicy, e)
            } else if !is_unique(fields, AttributeName::FallbackTrace) {
                wrong_mark(fields, AttributeName::FallbackTrace, e)
            } else {
                e == DeriveError::InvalidArguments
            }
        },
    }
}

/// Whether `e` is what is wrong with a mark that is not unique: what the first field shows with
/// which it is not.
pub open spec fn wrong_mark(fields: Seq<FieldView>, name: AttributeName, e: DeriveError) -> bool {
    exists|f: int|
        {
            &&& 0 <= f < fields.len()
            &&& at_most_one(fields, name, f)
            &&& !at_most_one(fields, name, f + 1)
            &&& e == (if (#[trigger] fields[f]).has_twice(name) {
                DeriveError::DuplicatedAttribute(name)
            } else {
                DeriveError::SeveralFields(name)
            })
        }
}

/// The code for a plan.
pub fn derive_for(input: &DeriveInput) -> (r: Result<PlanTraceObject, DeriveError>)
    ensures
        derived(input.deep_view(), r),
{
    match input {
        DeriveInput::Unsupported => Err(DeriveError::NotANamedStruct),
        DeriveInput::NamedStruct { fields } => {
            let ghost view = fields.deep_view();
            let spaces = match get_fields_with_attribute(fields, AttributeName::Trace) {
                Ok(spaces) => spaces,
                Err(e) => return Err(e),
            };
            let main_policy = match get_unique_field_with_attribute(
                fields,
                AttributeName::MainPolicy,
            ) {
                Ok(main_policy) => main_policy,
                Err(e) => return Err(e),
            };
            let fallback = match get_unique_field_with_attribute(
                fields,
                AttributeName::FallbackTrace,
            ) {
                Ok(fallback) => fallback,
                Err(e) => return Err(e),
            };
            let trace_object = match generate_trace_object(fields, &spaces, fallback) {
                Ok(trace_object) => trace_object,
                Err(e) => {
                    assert(any_malformed(view));
                    return Err(e);
                },
            };
            let code = PlanTraceObject {
                trace_object,
                create_scan_work: generate_create_scan_work(main_policy),
                may_move_objects: generate_may_move_objects(main_policy),
            };
            proof {
                assert(picks(view, AttributeName::Trace, view.len() as int, spaces@));
                assert forall|f: int| 0 <= f < view.len() implies !malformed_trace(
                    #[trigger] view[f],
                ) by {
                    if malformed_trace(view[f]) {
                        assert(view[f].has(AttributeName::Trace));
                        let k = choose|k: int| 0 <= k < spaces@.len() && #[trigger] spaces@[k] == f;
                        assert(malformed_trace(view[spaces@[k] as int]));
                    }
                }
            }
            Ok(code)
        },
    }
}

/// The code for the plan whose definition is `text`.
pub fn derive_plan_trace_object(text: &str) -> (r: Result<PlanTraceObject, DeriveError>)
    ensures
        match parsed_input(readable(text@)) {
            Some(input) if parseable(readable(text@)) => derived(input, r),
            _ => r is Err && r->Err_0 == DeriveError::Syntax,
        },
{
    let readable_text = make_readable(text);
    if !is_parseable(readable_text.as_str()) {
        return Err(DeriveError::Syntax);
    }
    match parse_derive_input(readable_text.as_str()) {
        Ok(input) => derive_for(&input),
        Err(_) => Err(DeriveError::Syntax),
    }
}

/// Who traces an object.
#[derive(Copy, Clone, PartialEq, Eq, Structural, Debug)]
pub enum Dispatch {
    /// The space of this arm, by its index among the arms.
    Space(usize),
    /// The plan of this field.
    Fallback(usize),
    /// Nobody: there are no more spaces to try.
    Nobody,
}

impl TraceFunction {
    /// Who traces an object, where `in_space` says for each field whether it is a space that has
    /// the object: the first of the arms whose space does, or else the fallback.
    pub fn dispatch(&self, in_space: &Vec<bool>) -> (d: Dispatch)
        requires
            forall|k: int|
                0 <= k < self.arms@.len() ==> (#[trigger] self.arms@[k]).field < in_space@.len(),
        ensures
            match d {
                Dispatch::Space(a) => {
                    &&& a < self.arms@.len()
                    &&& in_space@[self.arms@[a as int].field as int]
                    &&& forall|k: int|
                        0 <= k < a ==> !in_space@[(#[trigger] self.arms@[k]).field as int]
                },
                _ => {
                    &&& forall|k: int|
                        0 <= k < self.arms@.len() ==> !in_space@[(
                        #[trigger] self.arms@[k]).field as int]
                    &&& d == (match self.fallback {
                        Some(f) => Dispatch::Fallback(f),
                        None => Dispatch::Nobody,
                    })
                },
            },
    {
        let mut k: usize = 0;
        while k < self.arms.len()
            invariant
                k <= self.arms@.len(),
                forall|k: int|
                    0 <= k < self.arms@.len() ==> (#[trigger] self.arms@[k]).field
                        < in_space@.len(),
                forall|l: int|
                    0 <= l < k ==> !in_space@[(#[trigger] self.arms@[l]).field as int],
            decreases self.arms@.len() - k,
        {
            if in_space[self.arms[k].field] {
                return Dispatch::Space(k);
            }
            k += 1;
        }
        match self.fallback {
            Some(f) => Dispatch::Fallback(f),
            None => Dispatch::Nobody,
        }
    }
}

/// An object that lies in one of the spaces of a plan is traced by that space, and by no other: the
/// one that has it, where they do not overlap.
pub proof fn law_object_is_traced_by_its_space(
    fields: Seq<FieldView>,
    code: PlanTraceObject,
    in_space: Seq<bool>,
    space: usize,
    arm: usize,
)
    requires
        code_for(fields, code),
        in_space.len() == fields.len(),
        space < fields.len(),
        fields[space as int].has(AttributeName::Trace),
        in_space[space as int],
        forall|f: int| 0 <= f < fields.len() && f != space ==> !#[trigger] in_space[f],
        arm < code.trace_object.arms@.len(),
        in_space[code.trace_object.arms@[arm as int].field as int],
    ensures
        code.trace_object.arms@[arm as int].field == space,
        exists|k: int|
            0 <= k < code.trace_object.arms@.len() && (
            #[trigger] code.trace_object.arms@[k]).field == space,
{
    let arms = code.trace_object.arms@;
    let picked = choose|picked: Seq<usize>|
        {
            &&& #[trigger] picks(fields, AttributeName::Trace, fields.len() as int, picked)
            &&& arms.len() == picked.len()
            &&& forall|k: int| 0 <= k < picked.len() ==> arm_for(fields, picked[k], #[trigger] arms[k])
        };
    assert(arm_for(fields, picked[arm as int], arms[arm as int]));
    assert(picked[arm as int] < fields.len());
    let k = choose|k: int| 0 <= k < picked.len() && #[trigger] picked[k] == space;
    assert(arm_for(fields, picked[k], arms[k]));
}

} // verus!
