//! What holds of the code for a plan, and of who traces an object by it.
use crate::macros::derive_input::{
    is_known_literal, is_parseable, lexed, make_readable,
    parseable, parsed_arguments, parsed_input, spelled, spelling, Attribute, AttributeArg,
    AttributeArgView, DeriveInput, DeriveInputView, Field, FieldView, TokenView,
};
use crate::macros::trace_object::{
    any_malformed, arm_for, at_most_one, code_for, derive_for, derive_plan_trace_object,
    generate_create_scan_work, generate_may_move_objects, generate_trace_object,
    get_field_attribute, get_fields_with_attribute, get_first_path, get_unique_field_with_attribute,
    is_unique, malformed, malformed_trace, named_copy, picks, traced_twice, well_marked, wrong_mark, AttributeName, DeriveError,
    Dispatch, MainPolicyFunction, PlanTraceObject, TraceArm, TraceFunction,
};
use vstd::prelude::*;

verus! {

/// Whether the `i`th mark of the field is `mark`.
pub open spec fn mark_at(field: FieldView, i: int, mark: Seq<char>) -> bool {
    0 <= i < field.attrs.len() && field.attrs[i].name == Some(mark)
}

/// Whether the field has the mark.
pub open spec fn carries(field: FieldView, mark: Seq<char>) -> bool {
    exists|i: int| #[trigger] mark_at(field, i, mark)
}

/// Whether the field has the mark at two places.
pub open spec fn carries_twice(field: FieldView, mark: Seq<char>) -> bool {
    exists|i: int, j: int| i < j && #[trigger] mark_at(field, i, mark) && #[trigger] mark_at(
        field,
        j,
        mark,
    )
}

/// How a mark is written.
pub open spec fn written(name: AttributeName) -> Seq<char> {
    match name {
        AttributeName::Trace => "trace"@,
        AttributeName::MainPolicy => "main_policy"@,
        AttributeName::FallbackTrace => "fallback_trace"@,
    }
}

proof fn lemma_carries(field: FieldView, name: AttributeName)
    ensures
        field.has(name) == carries(field, written(name)),
        field.has_twice(name) == carries_twice(field, written(name)),
{
    if field.has(name) {
        let i = choose|i: int| 0 <= i < field.attrs.len() && (#[trigger] field.attrs[i]).is(name);
        assert(mark_at(field, i, written(name)));
    }
    if carries(field, written(name)) {
        let i = choose|i: int| #[trigger] mark_at(field, i, written(name));
        assert(field.attrs[i].is(name));
    }
    if field.has_twice(name) {
        let (i, j) = choose|i: int, j: int|
            0 <= i < j < field.attrs.len() && (#[trigger] field.attrs[i]).is(name) && (
            #[trigger] field.attrs[j]).is(name);
        assert(mark_at(field, i, written(name)) && mark_at(field, j, written(name)));
    }
    if carries_twice(field, written(name)) {
        let (i, j) = choose|i: int, j: int|
            i < j && #[trigger] mark_at(field, i, written(name)) && #[trigger] mark_at(
                field,
                j,
                written(name),
            );
        assert(field.attrs[i].is(name) && field.attrs[j].is(name));
    }
}

/// Marks are found by how they are written.
pub proof fn law_marks_are_known_by_their_text(
    attribute: Attribute,
    name: AttributeName,
    text: &'static str,
    found: bool,
)
    requires
        call_ensures(AttributeName::as_str, (name,), text),
        call_ensures(Attribute::has_name, (&attribute, name), found),
    ensures
        text@ == written(name),
        found <==> attribute.deep_view().name == Some(written(name)),
{
}

/// The mark of a field is found where it is: none where there is none, the place where there is one, and an error
/// where there are two.
#[verifier::spinoff_prover]
pub proof fn law_mark_of_a_field_is_found(
    field: Field,
    name: AttributeName,
    r: Result<Option<usize>, DeriveError>,
    i: int,
    j: int,
)
    requires
        call_ensures(get_field_attribute, (&field, name), r),
    ensures
        r is Err ==> r->Err_0 == DeriveError::DuplicatedAttribute(name),
        mark_at(field.deep_view(), i, written(name)) && mark_at(field.deep_view(), j, written(name))
            && i != j ==> r is Err,
        mark_at(field.deep_view(), i, written(name)) ==> r is Err || r == Ok::<
            Option<usize>,
            DeriveError,
        >(Some(i as usize)),
        r is Err ==> carries_twice(field.deep_view(), written(name)),
        r matches Ok(Some(k)) ==> mark_at(field.deep_view(), k as int, written(name)),
        !carries(field.deep_view(), written(name)) ==> r == Ok::<Option<usize>, DeriveError>(None),
{
    let view = field.deep_view();
    lemma_carries(view, name);
    if mark_at(view, i, written(name)) && mark_at(view, j, written(name)) && i != j {
        if i < j {
            assert(carries_twice(view, written(name)));
        } else {
            assert(mark_at(view, j, written(name)) && mark_at(view, i, written(name)) && j < i);
            assert(carries_twice(view, written(name)));
        }
    }
    if mark_at(view, i, written(name)) {
        assert(carries(view, written(name)));
        if let Ok(Some(k)) = r {
            assert(mark_at(view, k as int, written(name)));
            if k < i {
                assert(carries_twice(view, written(name)));
            } else if i < k {
                assert(mark_at(view, i, written(name)) && mark_at(view, k as int, written(name)));
                assert(carries_twice(view, written(name)));
            }
        }
    }
    if let Ok(Some(k)) = r {
        assert(mark_at(view, k as int, written(name)));
    }
}

/// The fields with a mark are found, all of them, once and in order, and no others; there is an error exactly if one
/// has the mark twice.
#[verifier::spinoff_prover]
pub proof fn law_fields_with_a_mark_are_found(
    fields: Vec<Field>,
    name: AttributeName,
    r: Result<Vec<usize>, DeriveError>,
    f: usize,
    k: int,
    l: int,
)
    requires
        call_ensures(get_fields_with_attribute, (&fields, name), r),
    ensures
        r is Err <==> exists|g: int|
            0 <= g < fields@.len() && carries_twice(
                #[trigger] fields.deep_view()[g],
                written(name),
            ),
        r is Err ==> r->Err_0 == DeriveError::DuplicatedAttribute(name),
        r matches Ok(picked) ==> {
            &&& f < fields@.len() ==> (picked@.contains(f) <==> carries(
                fields.deep_view()[f as int],
                written(name),
            ))
            &&& 0 <= k < picked@.len() ==> picked@[k] < fields@.len()
            &&& 0 <= k < l < picked@.len() ==> picked@[k] < picked@[l]
        },
{
    let view = fields.deep_view();
    assert(view.len() == fields@.len());
    if r is Err {
        let g = choose|g: int| 0 <= g < view.len() && (#[trigger] view[g]).has_twice(name);
        lemma_carries(view[g], name);
    }
    if let Ok(picked) = r {
        assert forall|g: int| 0 <= g < fields@.len() implies !carries_twice(
            #[trigger] view[g],
            written(name),
        ) by {
            lemma_carries(view[g], name);
        }
        if f < fields@.len() {
            lemma_carries(view[f as int], name);
            if carries(view[f as int], written(name)) {
                let m = choose|m: int| 0 <= m < picked@.len() && #[trigger] picked@[m] == f;
                assert(picked@[m] == f);
            }
            if picked@.contains(f) {
                let m = picked@.index_of(f);
                assert(picked@[m] == f);
            }
        }
    }
}

/// The one field with a mark is found, or none where there is none; two fields with it, or one that has it twice, are
/// an error.
#[verifier::spinoff_prover]
pub proof fn law_only_field_with_a_mark_is_found(
    fields: Vec<Field>,
    name: AttributeName,
    r: Result<Option<usize>, DeriveError>,
    f: int,
    g: int,
)
    requires
        call_ensures(get_unique_field_with_attribute, (&fields, name), r),
        0 <= f < fields@.len(),
        0 <= g < fields@.len(),
    ensures
        carries_twice(fields.deep_view()[f], written(name)) ==> r is Err,
        f != g && carries(fields.deep_view()[f], written(name)) && carries(
            fields.deep_view()[g],
            written(name),
        ) ==> r is Err,
        r matches Ok(Some(h)) ==> h < fields@.len() && (carries(
            fields.deep_view()[f],
            written(name),
        ) <==> h == f),
        r matches Ok(None) ==> !carries(fields.deep_view()[f], written(name)),
        r is Err ==> r->Err_0 == DeriveError::DuplicatedAttribute(name) || r->Err_0
            == DeriveError::SeveralFields(name),
{
    let view = fields.deep_view();
    lemma_carries(view[f], name);
    lemma_carries(view[g], name);
    lemma_unique(view, name, f, g);
    if let Ok(Some(h)) = r {
        lemma_unique(view, name, f, h as int);
        lemma_carries(view[h as int], name);
    }
}

/// Where a mark is unique, no field has it twice and no two have it.
proof fn lemma_unique(fields: Seq<FieldView>, name: AttributeName, f: int, g: int)
    requires
        0 <= f < fields.len(),
        0 <= g < fields.len(),
    ensures
        is_unique(fields, name) ==> !fields[f].has_twice(name),
        is_unique(fields, name) && f != g ==> !(fields[f].has(name) && fields[g].has(name)),
{
    if is_unique(fields, name) && f != g {
        if f < g {
            assert(!(fields[f].has(name) && fields[g].has(name)));
        } else {
            assert(!(fields[g].has(name) && fields[f].has(name)));
        }
    }
}

/// The code for a plan: each field marked `trace` is asked once, in the order of the fields, and no other field is
/// asked; the field marked `fallback_trace` is asked last; the one marked `main_policy` decides how objects
/// are scanned and whether they may be moved, and where there is none nobody does.
#[verifier::spinoff_prover]
pub proof fn law_code_asks_the_marked_fields(
    fields: Vec<Field>,
    code: PlanTraceObject,
    f: usize,
    k: int,
    l: int,
)
    requires
        call_ensures(
            derive_for,
            (&(DeriveInput::NamedStruct { fields }),),
            Ok::<PlanTraceObject, DeriveError>(code),
        ),
        f < fields@.len(),
    ensures
        carries(fields.deep_view()[f as int], "trace"@) <==> exists|a: int|
            0 <= a < code.trace_object.arms@.len() && (#[trigger] code.trace_object.arms@[a]).field
                == f,
        0 <= k < l < code.trace_object.arms@.len() ==> code.trace_object.arms@[k].field
            < code.trace_object.arms@[l].field,
        0 <= k < code.trace_object.arms@.len() ==> code.trace_object.arms@[k].field < fields@.len(),
        carries(fields.deep_view()[f as int], "fallback_trace"@) <==> code.trace_object.fallback == Some(
            f,
        ),
        carries(fields.deep_view()[f as int], "main_policy"@) <==> code.create_scan_work
            == MainPolicyFunction::Delegate(f),
        code.may_move_objects == code.create_scan_work,
        code.create_scan_work matches MainPolicyFunction::Delegate(m) ==> m < fields@.len(),
        code.trace_object.fallback matches Some(m) ==> m < fields@.len(),
{
    let view = fields.deep_view();
    let arms = code.trace_object.arms@;
    assert((DeriveInput::NamedStruct { fields }).deep_view() == (DeriveInputView::NamedStruct {
        fields: view,
    }));
    assert(code_for(view, code) && well_marked(view));
    lemma_carries(view[f as int], AttributeName::Trace);
    lemma_carries(view[f as int], AttributeName::FallbackTrace);
    lemma_carries(view[f as int], AttributeName::MainPolicy);
    let picked = choose|picked: Seq<usize>|
        {
            &&& #[trigger] picks(view, AttributeName::Trace, view.len() as int, picked)
            &&& arms.len() == picked.len()
            &&& forall|k: int| 0 <= k < picked.len() ==> arm_for(view, picked[k], #[trigger] arms[k])
        };
    if carries(view[f as int], "trace"@) {
        let a = choose|a: int| 0 <= a < picked.len() && #[trigger] picked[a] == f;
        assert(arm_for(view, picked[a], arms[a]));
        assert(arms[a].field == f);
    }
    if exists|a: int| 0 <= a < arms.len() && (#[trigger] arms[a]).field == f {
        let a = choose|a: int| 0 <= a < arms.len() && (#[trigger] arms[a]).field == f;
        assert(arm_for(view, picked[a], arms[a]));
    }
    if 0 <= k < arms.len() {
        assert(arm_for(view, picked[k], arms[k]));
        assert(picked[k] < view.len());
    }
    if 0 <= k < l < arms.len() {
        assert(arm_for(view, picked[k], arms[k]));
        assert(arm_for(view, picked[l], arms[l]));
    }
    if let Some(m) = code.trace_object.fallback {
        lemma_unique(view, AttributeName::FallbackTrace, f as int, m as int);
    }
    if let MainPolicyFunction::Delegate(m) = code.create_scan_work {
        lemma_unique(view, AttributeName::MainPolicy, f as int, m as int);
    }
}

/// What is wrong with a plan is told: it is no struct with named fields, or a field has the mark `trace` twice, or more
/// than one field is the main policy, or the fallback, or has the mark twice. Then there is no code.
#[verifier::spinoff_prover]
pub proof fn law_wrong_marks_are_told(
    fields: Vec<Field>,
    r: Result<PlanTraceObject, DeriveError>,
    none: Result<PlanTraceObject, DeriveError>,
    f: int,
    g: int,
)
    requires
        call_ensures(derive_for, (&(DeriveInput::NamedStruct { fields }),), r),
        call_ensures(derive_for, (&DeriveInput::Unsupported,), none),
        0 <= f < fields@.len(),
        0 <= g < fields@.len(),
    ensures
        none is Err && none->Err_0 == DeriveError::NotANamedStruct,
        carries_twice(fields.deep_view()[f], "trace"@) ==> r is Err && r->Err_0
            == DeriveError::DuplicatedAttribute(AttributeName::Trace),
        carries_twice(fields.deep_view()[f], "main_policy"@) ==> r is Err,
        carries_twice(fields.deep_view()[f], "fallback_trace"@) ==> r is Err,
        f != g && carries(fields.deep_view()[f], "main_policy"@) && carries(
            fields.deep_view()[g],
            "main_policy"@,
        ) ==> r is Err,
        f != g && carries(fields.deep_view()[f], "fallback_trace"@) && carries(
            fields.deep_view()[g],
            "fallback_trace"@,
        ) ==> r is Err,
{
    let view = fields.deep_view();
    assert((DeriveInput::NamedStruct { fields }).deep_view() == (DeriveInputView::NamedStruct {
        fields: view,
    }));
    assert(DeriveInput::Unsupported.deep_view() == DeriveInputView::Unsupported);
    lemma_carries(view[f], AttributeName::Trace);
    lemma_carries(view[f], AttributeName::FallbackTrace);
    lemma_carries(view[f], AttributeName::MainPolicy);
    lemma_carries(view[g], AttributeName::FallbackTrace);
    lemma_carries(view[g], AttributeName::MainPolicy);
    lemma_unique(view, AttributeName::MainPolicy, f, g);
    lemma_unique(view, AttributeName::FallbackTrace, f, g);
    if carries_twice(view[f], "trace"@) {
        assert(traced_twice(view));
    }
}

/// The error names the mark that is wrong: `trace` first, then `main_policy`, then `fallback_trace`; only where these
/// are right, it is what follows a mark. It says that several fields have the mark where none has it twice,
/// and that it is duplicated where only one field has it.
#[verifier::spinoff_prover]
pub proof fn law_error_names_the_wrong_mark(
    fields: Vec<Field>,
    e: DeriveError,
)
    requires
        call_ensures(
            derive_for,
            (&(DeriveInput::NamedStruct { fields }),),
            Err::<PlanTraceObject, DeriveError>(e),
        ),
    ensures
        ({
            let view = fields.deep_view();
            let main_ok = one_carries(view, "main_policy"@);
            let fallback_ok = one_carries(view, "fallback_trace"@);
            let trace_ok = forall|f: int|
                0 <= f < view.len() ==> !carries_twice(#[trigger] view[f], "trace"@);
            &&& !trace_ok ==> e == DeriveError::DuplicatedAttribute(AttributeName::Trace)
            &&& trace_ok && !main_ok ==> e == DeriveError::DuplicatedAttribute(
                AttributeName::MainPolicy,
            ) || e == DeriveError::SeveralFields(AttributeName::MainPolicy)
            &&& trace_ok && main_ok && !fallback_ok ==> e == DeriveError::DuplicatedAttribute(
                AttributeName::FallbackTrace,
            ) || e == DeriveError::SeveralFields(AttributeName::FallbackTrace)
            &&& trace_ok && main_ok && fallback_ok ==> e == DeriveError::InvalidArguments
        }),
{
    let view = fields.deep_view();
    assert((DeriveInput::NamedStruct { fields }).deep_view() == (DeriveInputView::NamedStruct {
        fields: view,
    }));
    lemma_one_carries(view, AttributeName::MainPolicy);
    lemma_one_carries(view, AttributeName::FallbackTrace);
    if traced_twice(view) {
        let f = choose|f: int|
            0 <= f < view.len() && (#[trigger] view[f]).has_twice(AttributeName::Trace);
        lemma_carries(view[f], AttributeName::Trace);
    } else {
        assert forall|f: int| 0 <= f < view.len() implies !carries_twice(
            #[trigger] view[f],
            "trace"@,
        ) by {
            lemma_carries(view[f], AttributeName::Trace);
        }
    }
}

/// Whether at most one field has the mark, and has it once.
pub open spec fn one_carries(fields: Seq<FieldView>, mark: Seq<char>) -> bool {
    &&& forall|f: int| 0 <= f < fields.len() ==> !carries_twice(#[trigger] fields[f], mark)
    &&& forall|f: int, g: int|
        #![trigger fields[f], fields[g]]
        0 <= f < g < fields.len() ==> !(carries(fields[f], mark) && carries(fields[g], mark))
}

proof fn lemma_one_carries(fields: Seq<FieldView>, name: AttributeName)
    ensures
        one_carries(fields, written(name)) == is_unique(fields, name),
{
    assert forall|f: int| 0 <= f < fields.len() implies carries_twice(
        #[trigger] fields[f],
        written(name),
    ) == fields[f].has_twice(name) && carries(fields[f], written(name)) == fields[f].has(name) by {
        lemma_carries(fields[f], name);
    }
}

/// One mark that only one field is to have: where several fields have it and none has it twice, the error says so, and
/// where one field has it twice and no other has it, it says that.
#[verifier::spinoff_prover]
pub proof fn law_several_fields_and_duplicates_are_told_apart(
    fields: Vec<Field>,
    name: AttributeName,
    e: DeriveError,
    f: int,
)
    requires
        call_ensures(
            get_unique_field_with_attribute,
            (&fields, name),
            Err::<Option<usize>, DeriveError>(e),
        ),
        0 <= f < fields@.len(),
    ensures
        (forall|g: int|
            0 <= g < fields@.len() ==> !carries_twice(
                #[trigger] fields.deep_view()[g],
                written(name),
            )) ==> e == DeriveError::SeveralFields(name),
        (forall|g: int|
            0 <= g < fields@.len() && g != f ==> !carries(
                #[trigger] fields.deep_view()[g],
                written(name),
            )) ==> e == DeriveError::DuplicatedAttribute(name),
        !one_carries(fields.deep_view(), written(name)),
{
    let view = fields.deep_view();
    lemma_one_carries(view, name);
    assert(wrong_mark(view, name, e));
    let h = choose|h: int|
        {
            &&& 0 <= h < view.len()
            &&& at_most_one(view, name, h)
            &&& !at_most_one(view, name, h + 1)
            &&& e == (if (#[trigger] view[h]).has_twice(name) {
                DeriveError::DuplicatedAttribute(name)
            } else {
                DeriveError::SeveralFields(name)
            })
        };
    lemma_carries(view[h], name);
    if forall|g: int|
        0 <= g < fields@.len() && g != f ==> !carries(#[trigger] view[g], written(name)) {
        assert forall|g: int| 0 <= g < view.len() && g != f implies !(#[trigger] view[g]).has(
            name,
        ) by {
            lemma_carries(view[g], name);
        }
        if !view[h].has_twice(name) {
            assert(at_most_one(view, name, h + 1));
        }
    }
}

/// Where every mark is on one field at most, there once, except `trace`, which may be on several, and nothing follows
/// a mark `trace`, there is code.
#[verifier::spinoff_prover]
pub proof fn law_plain_marks_give_code(
    fields: Vec<Field>,
    r: Result<PlanTraceObject, DeriveError>,
)
    requires
        call_ensures(derive_for, (&(DeriveInput::NamedStruct { fields }),), r),
        forall|f: int|
            0 <= f < fields@.len() ==> !carries_twice(#[trigger] fields.deep_view()[f], "trace"@)
                && !carries_twice(fields.deep_view()[f], "main_policy"@) && !carries_twice(
                fields.deep_view()[f],
                "fallback_trace"@,
            ),
        forall|f: int, g: int|
            #![trigger fields.deep_view()[f], fields.deep_view()[g]]
            0 <= f < g < fields@.len() ==> !(carries(fields.deep_view()[f], "main_policy"@)
                && carries(fields.deep_view()[g], "main_policy"@)) && !(carries(
                fields.deep_view()[f],
                "fallback_trace"@,
            ) && carries(fields.deep_view()[g], "fallback_trace"@)),
        forall|f: int, i: int|
            #![trigger fields.deep_view()[f].attrs[i]]
            0 <= f < fields@.len() && 0 <= i < fields.deep_view()[f].attrs.len()
                ==> fields.deep_view()[f].attrs[i].tokens.len() == 0,
    ensures
        r is Ok,
        r matches Ok(code) ==> forall|a: int|
            0 <= a < code.trace_object.arms@.len() ==> (#[trigger] code.trace_object.arms@[a]).copy is None,
{
    let view = fields.deep_view();
    assert((DeriveInput::NamedStruct { fields }).deep_view() == (DeriveInputView::NamedStruct {
        fields: view,
    }));
    assert forall|f: int| 0 <= f < view.len() implies !(#[trigger] view[f]).has_twice(
        AttributeName::Trace,
    ) && !view[f].has_twice(AttributeName::MainPolicy) && !view[f].has_twice(
        AttributeName::FallbackTrace,
    ) && !malformed_trace(view[f]) by {
        lemma_carries(view[f], AttributeName::Trace);
        lemma_carries(view[f], AttributeName::MainPolicy);
        lemma_carries(view[f], AttributeName::FallbackTrace);
    }
    assert forall|f: int, g: int|
        #![trigger view[f], view[g]]
        0 <= f < g < view.len() implies !(view[f].has(AttributeName::MainPolicy) && view[g].has(
        AttributeName::MainPolicy,
    )) && !(view[f].has(AttributeName::FallbackTrace) && view[g].has(
        AttributeName::FallbackTrace,
    )) by {
        lemma_carries(view[f], AttributeName::MainPolicy);
        lemma_carries(view[f], AttributeName::FallbackTrace);
        lemma_carries(view[g], AttributeName::MainPolicy);
        lemma_carries(view[g], AttributeName::FallbackTrace);
    }
    assert(!traced_twice(view));
    assert(is_unique(view, AttributeName::MainPolicy));
    assert(is_unique(view, AttributeName::FallbackTrace));
    assert(!any_malformed(view));
    if let Ok(code) = r {
        let arms = code.trace_object.arms@;
        let picked = choose|picked: Seq<usize>|
            {
                &&& #[trigger] picks(view, AttributeName::Trace, view.len() as int, picked)
                &&& arms.len() == picked.len()
                &&& forall|k: int|
                    0 <= k < picked.len() ==> arm_for(view, picked[k], #[trigger] arms[k])
            };
        assert forall|a: int| 0 <= a < arms.len() implies (#[trigger] arms[a]).copy is None by {
            assert(arm_for(view, picked[a], arms[a]));
            assert(picked[a] < view.len());
        }
    }
}

/// An object that lies in one space of a plan is traced by the arm of that space; one that lies in none goes to the
/// fallback, or to nobody where there is none.
#[verifier::spinoff_prover]
pub proof fn law_object_goes_to_its_space(
    fields: Vec<Field>,
    code: PlanTraceObject,
    in_space: Vec<bool>,
    d: Dispatch,
    f: usize,
)
    requires
        call_ensures(
            derive_for,
            (&(DeriveInput::NamedStruct { fields }),),
            Ok::<PlanTraceObject, DeriveError>(code),
        ),
        in_space@.len() == fields@.len(),
        call_ensures(TraceFunction::dispatch, (&code.trace_object, &in_space), d),
        f < fields@.len(),
        forall|g: int| 0 <= g < fields@.len() && g != f ==> !#[trigger] in_space@[g],
    ensures
        in_space@[f as int] && carries(fields.deep_view()[f as int], "trace"@) ==> (d matches Dispatch::Space(a)
            && a < code.trace_object.arms@.len() && code.trace_object.arms@[a as int].field == f),
        !(in_space@[f as int] && carries(fields.deep_view()[f as int], "trace"@)) ==> d == (
        match code.trace_object.fallback {
            Some(g) => Dispatch::Fallback(g),
            None => Dispatch::Nobody,
        }),
{
    law_code_asks_the_marked_fields(fields, code, f, 0, 0);
    let arms = code.trace_object.arms@;
    if let Dispatch::Space(a) = d {
        law_code_asks_the_marked_fields(fields, code, f, a as int, 0);
        assert(arms[a as int].field < fields@.len());
        if !(in_space@[f as int] && carries(fields.deep_view()[f as int], "trace"@)) {
            assert(arms[a as int].field == f);
        }
    } else if in_space@[f as int] && carries(fields.deep_view()[f as int], "trace"@) {
        let a = choose|a: int| 0 <= a < arms.len() && (#[trigger] arms[a]).field == f;
        assert(!in_space@[arms[a].field as int]);
    }
}

/// Of several spaces that have an object, the one that is asked first traces it.
#[verifier::spinoff_prover]
pub proof fn law_first_space_asked_traces(
    t: TraceFunction,
    in_space: Vec<bool>,
    d: Dispatch,
    a: int,
)
    requires
        call_ensures(TraceFunction::dispatch, (&t, &in_space), d),
        0 <= a < t.arms@.len(),
        in_space@[t.arms@[a].field as int],
    ensures
        d matches Dispatch::Space(b) && b <= a && in_space@[t.arms@[b as int].field as int],
{
}

/// What the main policy does is done by its field, and by nobody where there is none.
pub proof fn law_main_policy_is_asked(
    field: Option<usize>,
    scan: MainPolicyFunction,
    may_move: MainPolicyFunction,
)
    requires
        call_ensures(generate_create_scan_work, (field,), scan),
        call_ensures(generate_may_move_objects, (field,), may_move),
    ensures
        scan == may_move,
        field matches Some(f) ==> scan == MainPolicyFunction::Delegate(f),
        field is None ==> scan == MainPolicyFunction::Unreachable,
{
}

/// The code that traces asks the spaces given, one each and in the order given, and then the fallback given. The
/// semantics named are those that follow the mark.
#[verifier::spinoff_prover]
pub proof fn law_spaces_given_are_asked_in_order(
    fields: Vec<Field>,
    space_fields: Vec<usize>,
    parent: Option<usize>,
    t: TraceFunction,
    k: int,
)
    requires
        call_ensures(
            generate_trace_object,
            (&fields, &space_fields, parent),
            Ok::<TraceFunction, DeriveError>(t),
        ),
        0 <= k < space_fields@.len(),
    ensures
        t.fallback == parent,
        t.arms@.len() == space_fields@.len(),
        t.arms@[k].field == space_fields@[k],
        t.arms@[k].copy matches Some(copy) ==> exists|i: int|
            #![trigger mark_at(fields.deep_view()[space_fields@[k] as int], i, "trace"@)]
            {
                let field = fields.deep_view()[space_fields@[k] as int];
                &&& mark_at(field, i, "trace"@)
                &&& field.attrs[i].tokens.len() > 0
                &&& parsed_arguments(field.attrs[i].tokens) is Some
                &&& parsed_arguments(field.attrs[i].tokens)->0.len() > 0
                &&& parsed_arguments(field.attrs[i].tokens)->0[0] == AttributeArgView::Path(copy@)
            },
{
    let view = fields.deep_view();
    let field = view[space_fields@[k] as int];
    assert(arm_for(view, space_fields@[k], t.arms@[k]));
    let i = choose|i: int|
        0 <= i < field.attrs.len() && (#[trigger] field.attrs[i]).is(AttributeName::Trace)
            && t.arms@[k].copy.deep_view() == named_copy(
            field.attrs[i],
        );
    assert(mark_at(field, i, "trace"@));
}

/// Whether `copy` is what the text `tokens` behind a mark names: nothing where there is no text, and otherwise the first
/// argument, if that is a path.
pub open spec fn names(tokens: Seq<char>, copy: Option<String>) -> bool {
    if tokens.len() == 0 {
        copy is None
    } else {
        &&& parseable(tokens)
        &&& parsed_arguments(tokens) is Some
        &&& ({
            let args = parsed_arguments(tokens)->0;
            if args.len() > 0 && args[0] is Path {
                copy is Some && AttributeArgView::Path(copy->0@) == args[0]
            } else {
                copy is None
            }
        })
    }
}

/// Whether the text behind a mark cannot be read as arguments.
pub open spec fn unreadable(tokens: Seq<char>) -> bool {
    tokens.len() > 0 && (!parseable(tokens) || parsed_arguments(tokens) is None)
}

proof fn lemma_named(
    view: Seq<FieldView>,
    field: usize,
    arm: TraceArm,
    i: int,
)
    requires
        arm_for(view, field, arm),
        !malformed_trace(view[field as int]),
        !view[field as int].has_twice(AttributeName::Trace),
        mark_at(view[field as int], i, "trace"@),
    ensures
        names(view[field as int].attrs[i].tokens, arm.copy),
{
    let attrs = view[field as int].attrs;
    let j = choose|j: int|
        0 <= j < attrs.len() && (#[trigger] attrs[j]).is(AttributeName::Trace)
            && arm.copy.deep_view() == named_copy(attrs[j]);
    assert(attrs[i].is(AttributeName::Trace));
    assert(attrs[j].is(AttributeName::Trace));
    assert(i == j);
}

/// The semantics that follow the mark `trace` of a field are those that its space is asked to trace with: the first
/// argument if that is a path, and none otherwise.
#[verifier::spinoff_prover]
pub proof fn law_semantics_named_are_those_used(
    fields: Vec<Field>,
    code: PlanTraceObject,
    f: usize,
    i: int,
    a: int,
)
    requires
        call_ensures(
            derive_for,
            (&(DeriveInput::NamedStruct { fields }),),
            Ok::<PlanTraceObject, DeriveError>(code),
        ),
        f < fields@.len(),
        mark_at(fields.deep_view()[f as int], i, "trace"@),
        0 <= a < code.trace_object.arms@.len(),
        code.trace_object.arms@[a].field == f,
    ensures
        names(fields.deep_view()[f as int].attrs[i].tokens, code.trace_object.arms@[a].copy),
{
    let view = fields.deep_view();
    let arms = code.trace_object.arms@;
    assert((DeriveInput::NamedStruct { fields }).deep_view() == (DeriveInputView::NamedStruct {
        fields: view,
    }));
    assert(code_for(view, code) && well_marked(view));
    let picked = choose|picked: Seq<usize>|
        {
            &&& #[trigger] picks(view, AttributeName::Trace, view.len() as int, picked)
            &&& arms.len() == picked.len()
            &&& forall|k: int| 0 <= k < picked.len() ==> arm_for(view, picked[k], #[trigger] arms[k])
        };
    assert(arm_for(view, picked[a], arms[a]));
    assert(!view[f as int].has_twice(AttributeName::Trace));
    assert(!malformed_trace(view[f as int]));
    lemma_named(view, f, arms[a], i);
}

/// The spaces given are asked to trace with the semantics that follow their marks.
#[verifier::spinoff_prover]
pub proof fn law_spaces_given_trace_as_marked(
    fields: Vec<Field>,
    space_fields: Vec<usize>,
    parent: Option<usize>,
    t: TraceFunction,
    k: int,
    i: int,
)
    requires
        call_ensures(
            generate_trace_object,
            (&fields, &space_fields, parent),
            Ok::<TraceFunction, DeriveError>(t),
        ),
        0 <= k < space_fields@.len(),
        mark_at(fields.deep_view()[space_fields@[k] as int], i, "trace"@),
        !carries_twice(fields.deep_view()[space_fields@[k] as int], "trace"@),
    ensures
        names(
            fields.deep_view()[space_fields@[k] as int].attrs[i].tokens,
            t.arms@[k].copy,
        ),
{
    let view = fields.deep_view();
    let f = space_fields@[k];
    lemma_carries(view[f as int], AttributeName::Trace);
    assert(arm_for(view, f, t.arms@[k]));
    lemma_named(view, f, t.arms@[k], i);
}

/// Where what follows a mark `trace` cannot be read, there is no code; and only then is that the error.
#[verifier::spinoff_prover]
pub proof fn law_unreadable_arguments_are_told(
    fields: Vec<Field>,
    r: Result<PlanTraceObject, DeriveError>,
    f: int,
    i: int,
)
    requires
        call_ensures(derive_for, (&(DeriveInput::NamedStruct { fields }),), r),
        0 <= f < fields@.len(),
        mark_at(fields.deep_view()[f], i, "trace"@),
    ensures
        unreadable(fields.deep_view()[f].attrs[i].tokens) ==> r is Err,
        r is Err && r->Err_0 == DeriveError::InvalidArguments ==> exists|g: int, j: int|
            0 <= g < fields@.len() && #[trigger] mark_at(fields.deep_view()[g], j, "trace"@)
                && unreadable(fields.deep_view()[g].attrs[j].tokens),
{
    let view = fields.deep_view();
    assert((DeriveInput::NamedStruct { fields }).deep_view() == (DeriveInputView::NamedStruct {
        fields: view,
    }));
    if unreadable(view[f].attrs[i].tokens) {
        assert(view[f].attrs[i].is(AttributeName::Trace));
        assert(malformed_trace(view[f]));
        assert(any_malformed(view));
    }
    if r is Err && r->Err_0 == DeriveError::InvalidArguments {
        if !any_malformed(view) {
            assert(!well_marked(view));
            assert(false);
        }
        let g = choose|g: int| 0 <= g < view.len() && malformed_trace(#[trigger] view[g]);
        let j = choose|j: int|
            0 <= j < view[g].attrs.len() && (#[trigger] view[g].attrs[j]).is(AttributeName::Trace)
                && malformed(view[g].attrs[j]);
        assert(mark_at(view[g], j, "trace"@));
    }
}

/// The semantics of a mark are its first argument if that is a path, and none otherwise.
pub proof fn law_first_argument_names_the_semantics(args: Vec<AttributeArg>, copy: Option<String>)
    requires
        call_ensures(get_first_path, (&args,), copy),
    ensures
        args@.len() == 0 ==> copy is None,
        args@.len() > 0 ==> {
            &&& args@[0] matches AttributeArg::Path(p) ==> copy matches Some(c) && c@ == p@
            &&& args@[0] is Unrelated ==> copy is None
        },
{
    if args@.len() > 0 {
        assert(args.deep_view()[0] == args@[0].deep_view());
    }
}

/// A text that can be parsed is read as it is, and so is one that is no sequence of tokens.
pub proof fn law_parseable_text_is_read_as_it_is(text: &str, parses: bool, read: String)
    requires
        call_ensures(is_parseable, (text,), parses),
        call_ensures(make_readable, (text,), read),
    ensures
        parses ==> read@ == text@,
        lexed(text@) is None ==> read@ == text@ && !parses,
{
}

/// Literals that the parser does not know make no difference: two texts whose tokens are the same but for these are
/// read the same.
#[verifier::spinoff_prover]
pub proof fn law_unknown_literals_make_no_difference(
    a: &str,
    b: &str,
    parses_a: bool,
    parses_b: bool,
    read_a: String,
    read_b: String,
)
    requires
        call_ensures(is_parseable, (a,), parses_a),
        call_ensures(is_parseable, (b,), parses_b),
        !parses_a && !parses_b,
        call_ensures(make_readable, (a,), read_a),
        call_ensures(make_readable, (b,), read_b),
    ensures
        lexed(a@) is Some && lexed(b@) is Some && differ_in_unknown_literals(
            lexed(a@)->0,
            lexed(b@)->0,
        ) ==> read_a@ == read_b@,
{
    if lexed(a@) is Some && lexed(b@) is Some && differ_in_unknown_literals(
        lexed(a@)->0,
        lexed(b@)->0,
    ) {
        lemma_same_spelling(lexed(a@)->0, lexed(b@)->0, lexed(a@)->0.len());
    }
}

/// Whether the tokens are the same but for literals that begin with `c` or a bracket.
pub open spec fn differ_in_unknown_literals(s: Seq<TokenView>, t: Seq<TokenView>) -> bool {
    &&& s.len() == t.len()
    &&& forall|i: int| 0 <= i < s.len() ==> (#[trigger] s[i]) == t[i] || (strange(s[i]) && strange(t[i]))
}

/// Whether the token is a literal that begins with `c` or a bracket.
pub open spec fn strange(token: TokenView) -> bool {
    token matches TokenView::Literal(l) && (l.len() == 0 || l[0] == 'c' || l[0] == '(')
}

proof fn lemma_same_spelling(s: Seq<TokenView>, t: Seq<TokenView>, n: nat)
    requires
        differ_in_unknown_literals(s, t),
        n <= s.len(),
    ensures
        spelling(s, n) == spelling(t, n),
    decreases n,
{
    if n > 0 {
        lemma_same_spelling(s, t, (n - 1) as nat);
        assert(s[n - 1] == t[n - 1] || (strange(s[n - 1]) && strange(t[n - 1])));
        assert(spelled(s[n - 1]) == spelled(t[n - 1]));
    }
}

/// The parser knows a literal unless it is empty, or begins with `c` or a bracket.
pub proof fn law_known_literals(literal: &str, known: bool)
    requires
        call_ensures(is_known_literal, (literal,), known),
    ensures
        known <==> literal@.len() > 0 && literal@[0] != 'c' && literal@[0] != '(',
{
}

/// A text that is no type definition gives an error, and one that is gives code exactly if the definition does.
#[verifier::spinoff_prover]
pub proof fn law_text_is_read_then_derived(
    text: &str,
    read: String,
    parses: bool,
    input: DeriveInput,
    from_text: Result<PlanTraceObject, DeriveError>,
    from_input: Result<PlanTraceObject, DeriveError>,
)
    requires
        call_ensures(make_readable, (text,), read),
        call_ensures(derive_plan_trace_object, (text,), from_text),
        call_ensures(derive_for, (&input,), from_input),
    ensures
        parsed_input(read@) is None ==> from_text is Err && from_text->Err_0 == DeriveError::Syntax,
        !parseable(read@) ==> from_text is Err && from_text->Err_0
            == DeriveError::Syntax,
        parseable(read@) && parsed_input(read@) == Some(
            input.deep_view(),
        ) ==> (from_text is Ok <==> from_input is Ok),
{
}

} // verus!
