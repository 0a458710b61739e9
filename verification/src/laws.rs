//! What holds of every reference, schema and instance.
use crate::error::{all_behind, ErrorKind, ErrorView};
use crate::json::JsonValue;
use crate::resolver::{reference_limit, resolved};
use crate::semantics::{
    errors_upto, node_accepts, node_errors, property_accepts, property_errors,
    validator_accepts, validator_errors, NodeView, RefView, ValidatorView,
};
use vstd::prelude::*;

verus! {

/// A compiled schema admits an instance exactly when it reports no
/// violation of it, wherever the instance stands.
pub proof fn lemma_node_accepts_iff_no_errors(
    node: NodeView,
    instance: JsonValue,
    at: Seq<Seq<char>>,
    hops: nat,
)
    ensures
        node_accepts(node, instance, hops) == (node_errors(node, instance, at, hops).len() == 0),
    decreases instance, hops, node, 0nat,
{
    lemma_validators_accept_iff_no_errors(
        node.validators,
        node.validators.len() as int,
        instance,
        at,
        hops,
    );
}

/// The first `upto` validators all admit an instance exactly when they
/// report no violation of it.
pub proof fn lemma_validators_accept_iff_no_errors(
    validators: Seq<ValidatorView>,
    upto: int,
    instance: JsonValue,
    at: Seq<Seq<char>>,
    hops: nat,
)
    requires
        0 <= upto <= validators.len(),
    ensures
        (forall|i: int|
            0 <= i < upto ==> validator_accepts(#[trigger] validators[i], instance, hops)) == (
        errors_upto(validators, upto, instance, at, hops).len() == 0),
    decreases instance, hops, validators, upto,
{
    if upto > 0 {
        lemma_validators_accept_iff_no_errors(validators, upto - 1, instance, at, hops);
        lemma_validator_accepts_iff_no_errors(validators[upto - 1], instance, at, hops);
        if errors_upto(validators, upto, instance, at, hops).len() == 0 {
            assert forall|i: int| 0 <= i < upto implies validator_accepts(
                #[trigger] validators[i],
                instance,
                hops,
            ) by {
                if i < upto - 1 {
                } else {
                    assert(validators[i] == validators[upto - 1]);
                }
            }
        }
    }
}

/// A validator admits an instance exactly when it reports no violation of
/// it.
pub proof fn lemma_validator_accepts_iff_no_errors(
    validator: ValidatorView,
    instance: JsonValue,
    at: Seq<Seq<char>>,
    hops: nat,
)
    ensures
        validator_accepts(validator, instance, hops) == (validator_errors(
            validator,
            instance,
            at,
            hops,
        ).len() == 0),
    decreases instance, hops, validator, 0nat,
{
    match validator {
        ValidatorView::Type { .. } => {},
        ValidatorView::False { .. } => {},
        ValidatorView::Properties { members } => {
            lemma_properties_accept_iff_no_errors(
                members,
                members.len() as int,
                instance,
                at,
                hops,
            );
        },
        ValidatorView::Reference(reference) => {
            if hops > 0 {
                match reference.target_node() {
                    Ok(node) => {
                        lemma_node_accepts_iff_no_errors(node, instance, at, (hops - 1) as nat);
                    },
                    Err(_) => {},
                }
            }
        },
    }
}

/// The schemas of the first `upto` properties all admit the members of
/// their names exactly when they report no violation.
pub proof fn lemma_properties_accept_iff_no_errors(
    members: Seq<(Seq<char>, NodeView)>,
    upto: int,
    instance: JsonValue,
    at: Seq<Seq<char>>,
    hops: nat,
)
    requires
        0 <= upto <= members.len(),
    ensures
        (forall|k: int| 0 <= k < upto ==> property_accepts(#[trigger] members[k], instance, hops))
            == (property_errors(members, upto, instance, at, hops).len() == 0),
    decreases instance, hops, members, upto,
{
    if upto > 0 {
        lemma_properties_accept_iff_no_errors(members, upto - 1, instance, at, hops);
        let (name, node) = members[upto - 1];
        match instance {
            JsonValue::Object(fields) => {
                let i = crate::json::position(fields, name, 0);
                if 0 <= i < fields.len() {
                    lemma_node_accepts_iff_no_errors(node, fields[i].1, at.push(name), node.limit);
                }
            },
            _ => {},
        }
        if property_errors(members, upto, instance, at, hops).len() == 0 {
            assert forall|k: int| 0 <= k < upto implies property_accepts(
                #[trigger] members[k],
                instance,
                hops,
            ) by {
                if k < upto - 1 {
                } else {
                    assert(members[k] == members[upto - 1]);
                }
            }
        }
    }
}

/// A reference admits an instance exactly when it reports no violation of
/// it.
pub proof fn lemma_reference_accepts_iff_no_errors(
    reference: RefView,
    instance: JsonValue,
    at: Seq<Seq<char>>,
    hops: nat,
)
    ensures
        reference.accepts(instance, hops) == (reference.errors(instance, at, hops).len() == 0),
{
    lemma_validator_accepts_iff_no_errors(ValidatorView::Reference(reference), instance, at, hops);
}

/// Every document lets at least one reference be followed, so a reference
/// that is asked by itself always looks for its target.
pub proof fn lemma_limit_is_positive(document: JsonValue)
    ensures
        reference_limit(document) >= 1,
{
}

/// A reference whose target resolves and compiles says of every instance
/// what the compiled target says of it, with one reference fewer to
/// follow: it depends on nothing else, so asking again gives the same.
pub proof fn lemma_reference_agrees_with_target(
    reference: RefView,
    node: NodeView,
    instance: JsonValue,
    hops: nat,
)
    requires
        hops > 0,
        reference.target_node() == Ok::<NodeView, ErrorKind>(node),
    ensures
        reference.accepts(instance, hops) == node_accepts(node, instance, (hops - 1) as nat),
{
}

/// The violations that a reference reports are those of its target, one
/// for one and in the same order, and the schema path of each is the
/// reference's own path followed by the path that the target gave.
pub proof fn lemma_reference_composes_paths(
    reference: RefView,
    node: NodeView,
    instance: JsonValue,
    at: Seq<Seq<char>>,
    hops: nat,
)
    requires
        hops > 0,
        reference.target_node() == Ok::<NodeView, ErrorKind>(node),
    ensures
        reference.errors(instance, at, hops).len() == node_errors(
            node,
            instance,
            at,
            (hops - 1) as nat,
        ).len(),
        forall|i: int|
            0 <= i < reference.errors(instance, at, hops).len() ==> {
                let outer = #[trigger] reference.errors(instance, at, hops)[i];
                let inner = node_errors(node, instance, at, (hops - 1) as nat)[i];
                &&& outer.schema_path == reference.schema_path + inner.schema_path
                &&& outer.instance_path == inner.instance_path
                &&& outer.kind == inner.kind
            },
{
    let inner = node_errors(node, instance, at, (hops - 1) as nat);
    assert(reference.errors(instance, at, hops) == all_behind(inner, reference.schema_path));
}

/// A reference whose target cannot be resolved, or does not compile,
/// admits no instance and reports exactly one violation of each: the
/// failure, at the reference's own place in the schema.
pub proof fn lemma_failed_target_is_one_error(
    reference: RefView,
    kind: ErrorKind,
    instance: JsonValue,
    at: Seq<Seq<char>>,
    hops: nat,
)
    requires
        hops > 0,
        reference.target_node() == Err::<NodeView, ErrorKind>(kind),
    ensures
        !reference.accepts(instance, hops),
        reference.errors(instance, at, hops) == seq![
            ErrorView { kind, schema_path: reference.schema_path, instance_path: at },
        ],
{
}

/// A reference whose target cannot be resolved reports exactly one
/// violation of every instance, and admits none, however many references
/// may follow.
pub proof fn lemma_unresolvable_reference(
    reference: RefView,
    instance: JsonValue,
    at: Seq<Seq<char>>,
    hops: nat,
)
    requires
        resolved(reference.resolver, reference.draft, reference.target) is Err,
    ensures
        !reference.accepts(instance, hops),
        reference.errors(instance, at, hops).len() == 1,
        reference.errors(instance, at, hops)[0].schema_path == reference.schema_path,
        reference.errors(instance, at, hops)[0].instance_path == at,
{
}

/// Whether one of `errors` says that references followed one another
/// without end.
pub open spec fn reports_loop(errors: Seq<ErrorView>) -> bool {
    exists|i: int| 0 <= i < errors.len() && (#[trigger] errors[i]).kind == ErrorKind::ReferenceLoop
}

/// The number of references that may follow one another decides nothing
/// but whether a chain is given up: where a compiled schema reports no such
/// chain, it reports the same with any greater number.
pub proof fn lemma_limit_decides_only_loops(
    node: NodeView,
    instance: JsonValue,
    at: Seq<Seq<char>>,
    hops: nat,
    more: nat,
)
    requires
        hops <= more,
        !reports_loop(node_errors(node, instance, at, hops)),
    ensures
        node_errors(node, instance, at, more) == node_errors(node, instance, at, hops),
    decreases instance, hops, node, 0nat,
{
    lemma_limit_decides_only_loops_upto(
        node.validators,
        node.validators.len() as int,
        instance,
        at,
        hops,
        more,
    );
}

/// The same of the first `upto` validators of a schema.
pub proof fn lemma_limit_decides_only_loops_upto(
    validators: Seq<ValidatorView>,
    upto: int,
    instance: JsonValue,
    at: Seq<Seq<char>>,
    hops: nat,
    more: nat,
)
    requires
        0 <= upto <= validators.len(),
        hops <= more,
        !reports_loop(errors_upto(validators, upto, instance, at, hops)),
    ensures
        errors_upto(validators, upto, instance, at, more) == errors_upto(
            validators,
            upto,
            instance,
            at,
            hops,
        ),
    decreases instance, hops, validators, upto,
{
    if upto > 0 {
        let before = errors_upto(validators, upto - 1, instance, at, hops);
        let last = validator_errors(validators[upto - 1], instance, at, hops);
        let all = errors_upto(validators, upto, instance, at, hops);
        assert(all == before + last);
        if reports_loop(before) {
            let i = choose|i: int|
                0 <= i < before.len() && (#[trigger] before[i]).kind == ErrorKind::ReferenceLoop;
            assert(all[i] == before[i]);
        }
        if reports_loop(last) {
            let i = choose|i: int|
                0 <= i < last.len() && (#[trigger] last[i]).kind == ErrorKind::ReferenceLoop;
            assert(all[before.len() + i] == last[i]);
        }
        lemma_limit_decides_only_loops_upto(validators, upto - 1, instance, at, hops, more);
        lemma_limit_decides_only_loops_in(validators[upto - 1], instance, at, hops, more);
    }
}

/// The same of one validator.
pub proof fn lemma_limit_decides_only_loops_in(
    validator: ValidatorView,
    instance: JsonValue,
    at: Seq<Seq<char>>,
    hops: nat,
    more: nat,
)
    requires
        hops <= more,
        !reports_loop(validator_errors(validator, instance, at, hops)),
    ensures
        validator_errors(validator, instance, at, more) == validator_errors(
            validator,
            instance,
            at,
            hops,
        ),
    decreases instance, hops, validator, 0nat,
{
    match validator {
        ValidatorView::Type { .. } => {},
        ValidatorView::False { .. } => {},
        ValidatorView::Properties { members } => {
            lemma_properties_ignore_limit(members, members.len() as int, instance, at, hops, more);
        },
        ValidatorView::Reference(reference) => {
            if hops == 0 {
                let errors = validator_errors(validator, instance, at, hops);
                assert(errors[0].kind == ErrorKind::ReferenceLoop);
            } else {
                match reference.target_node() {
                    Ok(node) => {
                        let inner = node_errors(node, instance, at, (hops - 1) as nat);
                        let outer = validator_errors(validator, instance, at, hops);
                        assert(outer == all_behind(inner, reference.schema_path));
                        if reports_loop(inner) {
                            let i = choose|i: int|
                                0 <= i < inner.len() && (#[trigger] inner[i]).kind
                                    == ErrorKind::ReferenceLoop;
                            assert(outer[i].kind == ErrorKind::ReferenceLoop);
                        }
                        lemma_limit_decides_only_loops(
                            node,
                            instance,
                            at,
                            (hops - 1) as nat,
                            (more - 1) as nat,
                        );
                    },
                    Err(_) => {},
                }
            }
        },
    }
}

/// What the schemas of properties report does not depend on how many
/// references may follow on the object itself: the count starts anew at
/// each member.
pub proof fn lemma_properties_ignore_limit(
    members: Seq<(Seq<char>, NodeView)>,
    upto: int,
    instance: JsonValue,
    at: Seq<Seq<char>>,
    hops: nat,
    more: nat,
)
    requires
        0 <= upto <= members.len(),
    ensures
        property_errors(members, upto, instance, at, more) == property_errors(
            members,
            upto,
            instance,
            at,
            hops,
        ),
    decreases upto,
{
    if upto > 0 {
        lemma_properties_ignore_limit(members, upto - 1, instance, at, hops, more);
    }
}

} // verus!
