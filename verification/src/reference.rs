//! The keyword `$ref`: a reference to a schema that is resolved and
//! compiled when an instance first reaches it, and kept from then on.
use crate::context::{CompilationContext, CompilationOptions};
use crate::compile::compile_validators;
use crate::error::{
    error_views, prefix_errors, single_error, CompileError, ErrorKind, ValidationError,
};
use crate::json::{same_text, Json};
use crate::node::{SchemaNode, Validator};
use crate::paths::JsonPointer;
use crate::resolver::{Draft, Resolver, ResolverView};
use crate::semantics::{compiled_reference, target_node, NodeView, RefView, ValidatorView};
use crate::shared::{same, share};
use std::sync::Arc;
use vstd::prelude::*;
use vstd::string::StringExecFns;

verus! {

/// A compiled target, with what it was compiled from: the URL, the dialect
/// and the resolver. Every value of this type holds the schema that its URL
/// stands for.
pub struct CompiledTarget {
    reference: String,
    draft: Draft,
    resolver: Arc<Resolver>,
    node: SchemaNode,
}

impl View for CompiledTarget {
    type V = NodeView;

    closed spec fn view(&self) -> NodeView {
        self.node@
    }
}

impl CompiledTarget {
    /// What the schema was compiled from: the URL, the dialect and the
    /// resolver.
    pub closed spec fn made_from(&self) -> (Seq<char>, Draft, ResolverView) {
        (self.reference@, self.draft, self.resolver@)
    }

    #[verifier::type_invariant]
    spec fn holds_its_target(self) -> bool {
        target_node(self.resolver@, self.draft, self.reference@) == Ok::<NodeView, ErrorKind>(
            self.node@,
        )
    }

    /// The compiled schema: what the URL stands for.
    pub fn node(&self) -> (node: &SchemaNode)
        ensures
            node@ == self@,
            target_node(self.made_from().2, self.made_from().1, self.made_from().0) == Ok::<
                NodeView,
                ErrorKind,
            >(self@),
    {
        proof {
            use_type_invariant(self);
        }
        &self.node
    }
}

/// The place where a reference keeps its compiled target: empty until a
/// target was stored. Many threads may read it at a time; one writes. It is
/// a `parking_lot::RwLock`, which Verus does not look into.
#[verifier::external_body]
pub struct NodeCache {
    slot: parking_lot::RwLock<Option<Arc<CompiledTarget>>>,
}

impl NodeCache {
    /// Makes an empty place with `RwLock::new` of `parking_lot`. Nothing is
    /// claimed of it.
    #[verifier::external_body]
    pub(crate) fn new() -> (cache: NodeCache) {
        NodeCache { slot: parking_lot::RwLock::new(None) }
    }

    /// Takes the read lock with `RwLock::read` of `parking_lot` and returns
    /// a handle to what is stored at that moment. Nothing is claimed of it:
    /// another thread may have stored since, or none ever.
    #[verifier::external_body]
    pub(crate) fn load(&self) -> (entry: Option<Arc<CompiledTarget>>) {
        self.slot.read().clone()
    }

    /// Takes the write lock with `RwLock::write` of `parking_lot` and puts
    /// `entry` in the place of what was stored. Nothing is claimed of it.
    #[verifier::external_body]
    pub(crate) fn store(&self, entry: Arc<CompiledTarget>) {
        *self.slot.write() = Some(entry);
    }
}

/// The validator of one `$ref`.
pub struct RefValidator {
    reference: String,
    sub_nodes: NodeCache,
    schema_path: JsonPointer,
    config: Arc<CompilationOptions>,
    resolver: Arc<Resolver>,
}

impl View for RefValidator {
    type V = RefView;

    closed spec fn view(&self) -> RefView {
        RefView {
            target: self.reference@,
            schema_path: self.schema_path@,
            draft: self.config.dialect(),
            resolver: self.resolver@,
        }
    }
}

/// The text in front of the target when a reference is shown.
pub open spec fn shown_prefix() -> Seq<char> {
    "$ref: "@
}

impl RefValidator {
    /// The validator of the reference `reference`, written at the place that
    /// `context` describes. The target is the reference read against the
    /// context's scope; it is neither resolved nor compiled here. Fails with
    /// `InvalidReference` exactly where the two do not combine into a URL.
    pub fn compile(reference: &str, context: &CompilationContext) -> (validator: Result<
        RefValidator,
        CompileError,
    >)
        ensures
            match validator {
                Ok(made) => compiled_reference(reference@, context@) == Ok::<
                    RefView,
                    CompileError,
                >(made@),
                Err(error) => compiled_reference(reference@, context@) == Err::<
                    RefView,
                    CompileError,
                >(error),
            },
    {
        match context.build_url(reference) {
            Ok(target) => Ok(
                RefValidator {
                    reference: target,
                    sub_nodes: NodeCache::new(),
                    schema_path: context.schema_path().duplicate(),
                    config: share(context.config()),
                    resolver: share(context.resolver()),
                },
            ),
            Err(error) => Err(error),
        }
    }

    /// The URL that the reference points to.
    pub fn reference(&self) -> (target: &str)
        ensures
            target@ == self@.target,
    {
        self.reference.as_str()
    }

    /// Where the reference stands in its schema.
    pub fn schema_path(&self) -> (path: &JsonPointer)
        ensures
            path@ == self@.schema_path,
    {
        &self.schema_path
    }

    /// How the reference is shown: `$ref: ` and the target.
    pub fn to_string(&self) -> (text: String)
        ensures
            text@ == shown_prefix() + self@.target,
    {
        let mut text = String::from_str("$ref: ");
        text.append(self.reference.as_str());
        text
    }

    /// Whether a kept target can stand for this reference's target: where
    /// it was compiled from the same URL and under the same dialect, and
    /// `shares_resolver` says that it was compiled with this reference's own
    /// resolver.
    pub fn fits(&self, kept: &CompiledTarget, shares_resolver: bool) -> (fits: bool)
        ensures
            fits == (shares_resolver && kept.made_from().0 == self@.target && kept.made_from().1
                == self@.draft),
    {
        shares_resolver && same_text(kept.reference.as_str(), self.reference.as_str())
            && kept.draft == self.config.draft()
    }

    /// What was kept, where it can stand for this reference's target, and
    /// else nothing. It can where it was compiled from the same URL and
    /// under the same dialect, and `shares_resolver` says that it was
    /// compiled with this reference's own resolver. Where that is true of
    /// the resolver, what is handed back is the compiled form of this
    /// reference's target.
    pub fn usable(&self, kept: Option<Arc<CompiledTarget>>, shares_resolver: bool) -> (entry: Option<
        Arc<CompiledTarget>,
    >)
        ensures
            match kept {
                Some(target) => entry == if shares_resolver && target.made_from().0
                    == self@.target && target.made_from().1 == self@.draft {
                    Some(target)
                } else {
                    None::<Arc<CompiledTarget>>
                },
                None => entry is None,
            },
            match entry {
                Some(target) => target.made_from().2 == self@.resolver ==> self@.target_node()
                    == Ok::<NodeView, ErrorKind>(target@),
                None => true,
            },
    {
        match kept {
            Some(target) => {
                proof {
                    use_type_invariant(&*target);
                }
                if self.fits(&target, shares_resolver) {
                    Some(target)
                } else {
                    None
                }
            },
            None => None,
        }
    }

    /// The compiled target that is kept at this moment, if one is.
    pub fn cached(&self) -> (entry: Option<Arc<CompiledTarget>>)
        ensures
            match entry {
                Some(target) => self@.target_node() == Ok::<NodeView, ErrorKind>(target@),
                None => true,
            },
    {
        let kept = self.sub_nodes.load();
        let shares_resolver = match &kept {
            Some(target) => same(&target.resolver, &self.resolver),
            None => false,
        };
        self.usable(kept, shares_resolver)
    }

    /// Keeps a compiled target in the place of what was kept before. Only
    /// what was compiled from this reference's own URL, under its dialect
    /// and with its resolver, is ever kept.
    fn keep(&self, target: CompiledTarget)
        requires
            target.made_from() == (self@.target, self@.draft, self@.resolver),
    {
        self.sub_nodes.store(Arc::new(target));
    }

    /// Resolves the target and compiles what is found there, at the root of
    /// a context of the scope in effect there.
    pub fn compile_target(&self) -> (target: Result<CompiledTarget, ErrorKind>)
        ensures
            match target {
                Ok(made) => {
                    &&& self@.target_node() == Ok::<NodeView, ErrorKind>(made@)
                    &&& made.made_from() == (self@.target, self@.draft, self@.resolver)
                },
                Err(kind) => self@.target_node() == Err::<NodeView, ErrorKind>(kind),
            },
    {
        match self.resolver.resolve_fragment(self.config.draft(), self.reference.as_str()) {
            Ok((scope, schema)) => {
                let context = CompilationContext::new(
                    scope,
                    share(&self.config),
                    share(&self.resolver),
                );
                match compile_validators(schema, &context) {
                    Ok(node) => Ok(
                        CompiledTarget {
                            reference: self.reference.clone(),
                            draft: self.config.draft(),
                            resolver: share(&self.resolver),
                            node,
                        },
                    ),
                    Err(error) => Err(ErrorKind::CompileFailure(error)),
                }
            },
            Err(error) => Err(ErrorKind::ResolutionFailure(error)),
        }
    }

    /// Whether the target admits `instance`; `false` where the target
    /// cannot be resolved or compiled, or where more references follow one
    /// another than the resolver lets. A target that was kept is asked
    /// directly; else the target is resolved and compiled, asked, and kept.
    pub fn is_valid(&self, instance: &Json) -> (valid: bool)
        ensures
            valid == self@.accepts(instance@, self@.resolver.limit),
    {
        self.is_valid_within(instance, self.resolver.reference_limit())
    }

    /// The violations that the target finds in `instance`, each with this
    /// reference's place in the schema put in front of its own, on every
    /// call alike; one violation at this reference's place where the target
    /// cannot be resolved or compiled, or where more references follow one
    /// another than the resolver lets. A target that was kept is asked
    /// directly; else the target is resolved and compiled, asked, and kept.
    pub fn validate(&self, instance: &Json, instance_path: &JsonPointer) -> (errors: Vec<
        ValidationError,
    >)
        ensures
            error_views(errors@) == self@.errors(
                instance@,
                instance_path@,
                self@.resolver.limit,
            ),
    {
        self.validate_within(instance, instance_path, self.resolver.reference_limit())
    }

    /// Whether the target admits `instance` when `hops` more references
    /// may follow one another, this one counted.
    pub fn is_valid_within(&self, instance: &Json, hops: usize) -> (valid: bool)
        ensures
            valid == self@.accepts(instance@, hops as nat),
        decreases instance@, hops, ValidatorView::Reference(self@), 0nat,
    {
        if hops == 0 {
            return false;
        }
        match self.cached() {
            Some(target) => target.node().is_valid_within(instance, hops - 1),
            None => match self.compile_target() {
                Ok(target) => {
                    let valid = target.node().is_valid_within(instance, hops - 1);
                    self.keep(target);
                    valid
                },
                Err(_) => false,
            },
        }
    }

    /// The violations that the target finds in `instance` when `hops` more
    /// references may follow one another, this one counted.
    pub fn validate_within(&self, instance: &Json, instance_path: &JsonPointer, hops: usize) -> (errors:
        Vec<ValidationError>)
        ensures
            error_views(errors@) == self@.errors(instance@, instance_path@, hops as nat),
        decreases instance@, hops, ValidatorView::Reference(self@), 0nat,
    {
        if hops == 0 {
            return single_error(ErrorKind::ReferenceLoop, &self.schema_path, instance_path);
        }
        match self.cached() {
            Some(target) => {
                let found = target.node().validate_within(instance, instance_path, hops - 1);
                prefix_errors(&found, &self.schema_path)
            },
            None => match self.compile_target() {
                Ok(target) => {
                    let found = target.node().validate_within(instance, instance_path, hops - 1);
                    let errors = prefix_errors(&found, &self.schema_path);
                    self.keep(target);
                    errors
                },
                Err(kind) => single_error(kind, &self.schema_path, instance_path),
            },
        }
    }
}

/// The validator of the keyword `$ref` with the value `reference`, found in
/// the schema object `schema`: always there, and an error where the
/// reference is invalid.
pub fn compile(_schema: &Json, reference: &str, context: &CompilationContext) -> (validator: Option<
    Result<Validator, CompileError>,
>)
    ensures
        match validator {
            Some(Ok(made)) => made is Reference && compiled_reference(reference@, context@) == Ok::<
                RefView,
                CompileError,
            >(made->Reference_0@),
            Some(Err(error)) => compiled_reference(reference@, context@) == Err::<
                RefView,
                CompileError,
            >(error),
            None => false,
        },
{
    match RefValidator::compile(reference, context) {
        Ok(made) => Some(Ok(Validator::Reference(made))),
        Err(error) => Some(Err(error)),
    }
}

} // verus!
