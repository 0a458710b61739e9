//! What the compiler knows at one place in a schema.
use crate::error::CompileError;
use crate::location::{join, url_join};
use crate::paths::JsonPointer;
use crate::resolver::{Draft, Resolver, ResolverView};
use crate::shared::share;
use std::sync::Arc;
use vstd::prelude::*;

verus! {

/// How schemas are compiled: the dialect that they are written in.
#[derive(Debug)]
pub struct CompilationOptions {
    draft: Draft,
}

impl CompilationOptions {
    /// Options for schemas of the dialect `draft`.
    pub fn new(draft: Draft) -> (options: CompilationOptions)
        ensures
            options.dialect() == draft,
    {
        CompilationOptions { draft }
    }

    /// The dialect.
    pub closed spec fn dialect(&self) -> Draft {
        self.draft
    }

    /// The dialect.
    pub fn draft(&self) -> (draft: Draft)
        ensures
            draft == self.dialect(),
    {
        self.draft
    }
}

/// The mathematical model of a compilation context.
pub struct ContextView {
    pub scope: Seq<char>,
    pub draft: Draft,
    pub resolver: ResolverView,
    pub schema_path: Seq<Seq<char>>,
}

impl ContextView {
    /// The context one token further down in the schema.
    pub open spec fn with(self, token: Seq<char>) -> ContextView {
        ContextView { schema_path: self.schema_path.push(token), ..self }
    }

    /// The URL that a reference written at this place points to.
    pub open spec fn target_of(self, reference: Seq<char>) -> Result<Seq<char>, CompileError> {
        match url_join(self.scope, reference) {
            Some(target) => Ok(target),
            None => Err(CompileError::InvalidReference),
        }
    }
}

/// The scope, the options and the resolver in effect at one place in a
/// schema, and the path to that place. A context is never changed: the
/// compiler derives a new one as it goes down.
pub struct CompilationContext {
    scope: String,
    config: Arc<CompilationOptions>,
    resolver: Arc<Resolver>,
    schema_path: JsonPointer,
}

impl View for CompilationContext {
    type V = ContextView;

    closed spec fn view(&self) -> ContextView {
        ContextView {
            scope: self.scope@,
            draft: self.config.dialect(),
            resolver: self.resolver@,
            schema_path: self.schema_path@,
        }
    }
}

impl CompilationContext {
    /// The context at the root of a schema whose scope is `scope`.
    pub fn new(scope: String, config: Arc<CompilationOptions>, resolver: Arc<Resolver>) -> (context:
        CompilationContext)
        ensures
            context@ == (ContextView {
                scope: scope@,
                draft: config.dialect(),
                resolver: resolver@,
                schema_path: Seq::empty(),
            }),
    {
        CompilationContext { scope, config, resolver, schema_path: JsonPointer::new() }
    }

    /// The context one token further down in the schema.
    pub fn with(&self, token: &str) -> (context: CompilationContext)
        ensures
            context@ == self@.with(token@),
    {
        CompilationContext {
            scope: self.scope.clone(),
            config: share(&self.config),
            resolver: share(&self.resolver),
            schema_path: self.schema_path.with(token),
        }
    }

    /// The scope: the URL against which references are read.
    pub fn scope(&self) -> (scope: &str)
        ensures
            scope@ == self@.scope,
    {
        self.scope.as_str()
    }

    /// The options.
    pub fn config(&self) -> (config: &Arc<CompilationOptions>)
        ensures
            config.dialect() == self@.draft,
    {
        &self.config
    }

    /// The resolver.
    pub fn resolver(&self) -> (resolver: &Arc<Resolver>)
        ensures
            resolver@ == self@.resolver,
    {
        &self.resolver
    }

    /// The path from the schema's root to this place.
    pub fn schema_path(&self) -> (path: &JsonPointer)
        ensures
            path@ == self@.schema_path,
    {
        &self.schema_path
    }

    /// The URL that a reference written at this place points to:
    /// `reference` read against the scope. Fails with `InvalidReference`
    /// exactly where the two do not combine into a URL.
    pub fn build_url(&self, reference: &str) -> (target: Result<String, CompileError>)
        ensures
            match target {
                Ok(url) => self@.target_of(reference@) == Ok::<Seq<char>, CompileError>(url@),
                Err(error) => self@.target_of(reference@) == Err::<Seq<char>, CompileError>(
                    error,
                ),
            },
    {
        match join(self.scope.as_str(), reference) {
            Ok(url) => Ok(url),
            Err(_) => Err(CompileError::InvalidReference),
        }
    }
}

} // verus!
