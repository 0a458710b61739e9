//! Compiled schemas: validators in order, each asked about an instance.
use crate::error::{
    append_errors, error_views, single_error, ErrorKind, PrimitiveType, ValidationError,
};
use crate::json::{lemma_member_is_smaller, Json, JsonValue};
use crate::paths::JsonPointer;
use crate::reference::RefValidator;
use crate::semantics::{
    errors_upto, has_type, node_accepts, node_errors, property_accepts, property_errors,
    validator_accepts, validator_errors, NodeView, ValidatorView,
};
use vstd::prelude::*;

verus! {

/// One compiled keyword.
pub enum Validator {
    /// `type`: the instance is of the type `expected`.
    Type { expected: PrimitiveType, schema_path: JsonPointer },
    /// The schema `false`: no instance is admitted.
    False { schema_path: JsonPointer },
    /// `properties`: each member that is named here meets the schema beside
    /// its name.
    Properties { members: Vec<(String, SchemaNode)> },
    /// `$ref`: the instance meets the schema that the reference points to.
    Reference(RefValidator),
}

/// A compiled schema: the validators of its keywords in order.
pub struct SchemaNode {
    validators: Vec<Validator>,
    limit: usize,
}

/// The model of one property: its name and the model of its schema.
pub open spec fn property_view(member: (String, SchemaNode)) -> (Seq<char>, NodeView)
    decreases member,
{
    (member.0@, member.1@)
}

impl View for Validator {
    type V = ValidatorView;

    open spec fn view(&self) -> ValidatorView
        decreases self,
    {
        match self {
            Validator::Type { expected, schema_path } => ValidatorView::Type {
                expected: *expected,
                schema_path: schema_path@,
            },
            Validator::False { schema_path } => ValidatorView::False { schema_path: schema_path@ },
            Validator::Properties { members } => ValidatorView::Properties {
                members: Seq::new(
                    members.len() as nat,
                    |i: int|
                        if 0 <= i < members.len() {
                            property_view(members[i])
                        } else {
                            (Seq::empty(), NodeView { validators: Seq::empty(), limit: 0 })
                        },
                ),
            },
            Validator::Reference(reference) => ValidatorView::Reference(reference@),
        }
    }
}

impl View for SchemaNode {
    type V = NodeView;

    closed spec fn view(&self) -> NodeView
        decreases self,
    {
        NodeView {
            validators: Seq::new(
                self.validators.len() as nat,
                |i: int|
                    if 0 <= i < self.validators.len() {
                        self.validators[i]@
                    } else {
                        ValidatorView::False { schema_path: Seq::empty() }
                    },
            ),
            limit: self.limit as nat,
        }
    }
}

/// The models of a list of validators, in the same order.
pub open spec fn validator_views(validators: Seq<Validator>) -> Seq<ValidatorView> {
    validators.map_values(|validator: Validator| validator@)
}

/// The model of `properties` lists each name with the model of its schema.
pub proof fn lemma_properties_view(validator: Validator)
    requires
        validator is Properties,
    ensures
        validator@ is Properties,
        validator@->members.len() == validator->members.len(),
        forall|i: int|
            0 <= i < validator->members.len() ==> #[trigger] validator@->members[i] == (
                validator->members[i].0@,
                validator->members[i].1@,
            ),
{
    let members = validator->members;
    assert forall|i: int| 0 <= i < members.len() implies #[trigger] validator@->members[i] == (
        members[i].0@,
        members[i].1@,
    ) by {
        assert(validator@->members[i] == property_view(members[i]));
    }
}

/// A validator of a compiled schema is a smaller value than the schema.
pub proof fn lemma_validator_is_smaller(node: NodeView, i: int)
    requires
        0 <= i < node.validators.len(),
    ensures
        decreases_to!(node => node.validators[i]),
{
    assert(decreases_to!(node => node.validators));
    assert(decreases_to!(node.validators => node.validators[i]));
}

impl SchemaNode {
    /// The schema whose keywords compiled to `validators`, where `limit`
    /// references may follow one another on one instance value.
    pub fn new(validators: Vec<Validator>, limit: usize) -> (node: SchemaNode)
        ensures
            node@ == (NodeView { validators: validator_views(validators@), limit: limit as nat }),
    {
        let node = SchemaNode { validators, limit };
        assert(node@.validators =~= validator_views(validators@));
        node
    }

    /// The validators, in the order of the schema's keywords.
    pub fn validators(&self) -> (validators: &Vec<Validator>)
        ensures
            validator_views(validators@) == self@.validators,
    {
        assert(validator_views(self.validators@) =~= self@.validators);
        &self.validators
    }

    /// How many references may follow one another on one instance value.
    pub fn limit(&self) -> (limit: usize)
        ensures
            limit == self@.limit,
    {
        self.limit
    }

    /// Whether this schema admits `instance`.
    pub fn is_valid(&self, instance: &Json) -> (valid: bool)
        ensures
            valid == node_accepts(self@, instance@, self@.limit),
    {
        self.is_valid_within(instance, self.limit)
    }

    /// The violations that this schema finds in `instance`, which stands at
    /// `instance_path`; none where it admits the instance.
    pub fn validate(&self, instance: &Json, instance_path: &JsonPointer) -> (errors: Vec<
        ValidationError,
    >)
        ensures
            error_views(errors@) == node_errors(
                self@,
                instance@,
                instance_path@,
                self@.limit,
            ),
    {
        self.validate_within(instance, instance_path, self.limit)
    }

    /// Whether this schema admits `instance` when `hops` more references
    /// may follow one another.
    pub fn is_valid_within(&self, instance: &Json, hops: usize) -> (valid: bool)
        ensures
            valid == node_accepts(self@, instance@, hops as nat),
        decreases instance@, hops, self@, 1nat,
    {
        let mut i: usize = 0;
        while i < self.validators.len()
            invariant
                i <= self.validators.len(),
                self@.validators.len() == self.validators.len(),
                forall|k: int|
                    0 <= k < self.validators.len() ==> #[trigger] self@.validators[k]
                        == self.validators[k]@,
                forall|k: int|
                    0 <= k < i ==> validator_accepts(
                        #[trigger] self@.validators[k],
                        instance@,
                        hops as nat,
                    ),
            decreases self.validators.len() - i,
        {
            proof {
                lemma_validator_is_smaller(self@, i as int);
            }
            if !self.validators[i].is_valid_within(instance, hops) {
                assert(!validator_accepts(self@.validators[i as int], instance@, hops as nat));
                return false;
            }
            i += 1;
        }
        true
    }

    /// The violations that this schema finds in `instance` when `hops` more
    /// references may follow one another.
    pub fn validate_within(&self, instance: &Json, instance_path: &JsonPointer, hops: usize) -> (errors:
        Vec<ValidationError>)
        ensures
            error_views(errors@) == node_errors(
                self@,
                instance@,
                instance_path@,
                hops as nat,
            ),
        decreases instance@, hops, self@, 1nat,
    {
        let mut errors: Vec<ValidationError> = Vec::new();
        let mut i: usize = 0;
        assert(error_views(errors@) =~= Seq::<crate::error::ErrorView>::empty());
        while i < self.validators.len()
            invariant
                i <= self.validators.len(),
                self@.validators.len() == self.validators.len(),
                forall|k: int|
                    0 <= k < self.validators.len() ==> #[trigger] self@.validators[k]
                        == self.validators[k]@,
                error_views(errors@) == errors_upto(
                    self@.validators,
                    i as int,
                    instance@,
                    instance_path@,
                    hops as nat,
                ),
            decreases self.validators.len() - i,
        {
            proof {
                lemma_validator_is_smaller(self@, i as int);
            }
            let more = self.validators[i].validate_within(instance, instance_path, hops);
            append_errors(&mut errors, more);
            i += 1;
        }
        errors
    }
}

impl Validator {
    /// Whether this validator admits `instance` when `hops` more references
    /// may follow one another.
    pub fn is_valid_within(&self, instance: &Json, hops: usize) -> (valid: bool)
        ensures
            valid == validator_accepts(self@, instance@, hops as nat),
        decreases instance@, hops, self@, 1nat,
    {
        match self {
            Validator::Type { expected, .. } => is_of_type(instance, *expected),
            Validator::False { .. } => false,
            Validator::Properties { members } => {
                proof {
                    lemma_properties_view(*self);
                }
                let ghost model = self@->members;
                let mut k: usize = 0;
                while k < members.len()
                    invariant
                        k <= members.len(),
                        self@ == (ValidatorView::Properties { members: model }),
                        model.len() == members.len(),
                        forall|j: int|
                            0 <= j < members.len() ==> #[trigger] model[j] == (
                                members[j].0@,
                                members[j].1@,
                            ),
                        forall|j: int|
                            0 <= j < k ==> property_accepts(
                                #[trigger] model[j],
                                instance@,
                                hops as nat,
                            ),
                    decreases members.len() - k,
                {
                    match instance.member(members[k].0.as_str()) {
                        Some(child) => {
                            proof {
                                lemma_member_is_smaller(instance@, members[k as int].0@);
                            }
                            let node = &members[k].1;
                            if !node.is_valid_within(child, node.limit()) {
                                assert(!property_accepts(model[k as int], instance@, hops as nat));
                                assert(self@->members[k as int] == model[k as int]);
                                assert(!validator_accepts(self@, instance@, hops as nat));
                                return false;
                            }
                        },
                        None => {},
                    }
                    k += 1;
                }
                true
            },
            Validator::Reference(reference) => reference.is_valid_within(instance, hops),
        }
    }

    /// The violations that this validator finds in `instance` when `hops`
    /// more references may follow one another.
    pub fn validate_within(&self, instance: &Json, instance_path: &JsonPointer, hops: usize) -> (errors:
        Vec<ValidationError>)
        ensures
            error_views(errors@) == validator_errors(
                self@,
                instance@,
                instance_path@,
                hops as nat,
            ),
        decreases instance@, hops, self@, 1nat,
    {
        match self {
            Validator::Type { expected, schema_path } => {
                if is_of_type(instance, *expected) {
                    let errors: Vec<ValidationError> = Vec::new();
                    assert(error_views(errors@) =~= Seq::<crate::error::ErrorView>::empty());
                    errors
                } else {
                    single_error(ErrorKind::Type(*expected), schema_path, instance_path)
                }
            },
            Validator::False { schema_path } => single_error(
                ErrorKind::FalseSchema,
                schema_path,
                instance_path,
            ),
            Validator::Properties { members } => {
                proof {
                    lemma_properties_view(*self);
                }
                let ghost model = self@->members;
                let mut errors: Vec<ValidationError> = Vec::new();
                let mut k: usize = 0;
                assert(error_views(errors@) =~= Seq::<crate::error::ErrorView>::empty());
                while k < members.len()
                    invariant
                        k <= members.len(),
                        self@ == (ValidatorView::Properties { members: model }),
                        model.len() == members.len(),
                        forall|j: int|
                            0 <= j < members.len() ==> #[trigger] model[j] == (
                                members[j].0@,
                                members[j].1@,
                            ),
                        error_views(errors@) == property_errors(
                            model,
                            k as int,
                            instance@,
                            instance_path@,
                            hops as nat,
                        ),
                    decreases members.len() - k,
                {
                    let name = members[k].0.as_str();
                    assert(model[k as int] == (members[k as int].0@, members[k as int].1@));
                    match instance.member(name) {
                        Some(child) => {
                            proof {
                                lemma_member_is_smaller(instance@, name@);
                            }
                            let node = &members[k].1;
                            let place = instance_path.with(name);
                            let more = node.validate_within(child, &place, node.limit());
                            append_errors(&mut errors, more);
                        },
                        None => {
                            assert(error_views(errors@) + Seq::<crate::error::ErrorView>::empty()
                                =~= error_views(errors@));
                        },
                    }
                    k += 1;
                }
                errors
            },
            Validator::Reference(reference) => reference.validate_within(
                instance,
                instance_path,
                hops,
            ),
        }
    }
}

/// Whether a value is of a primitive type.
pub fn is_of_type(value: &Json, expected: PrimitiveType) -> (holds: bool)
    ensures
        holds == has_type(value@, expected),
{
    match expected {
        PrimitiveType::Array => matches!(value, Json::Array(_)),
        PrimitiveType::Boolean => matches!(value, Json::Bool(_)),
        PrimitiveType::Integer => matches!(value, Json::Integer(_)),
        PrimitiveType::Null => matches!(value, Json::Null),
        PrimitiveType::Number => matches!(value, Json::Integer(_)) || matches!(
            value,
            Json::Decimal(_)
        ),
        PrimitiveType::Object => matches!(value, Json::Object(_)),
        PrimitiveType::String => matches!(value, Json::String(_)),
    }
}

} // verus!
