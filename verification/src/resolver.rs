//! Finding the schema that a reference points to.
use crate::error::ResolutionError;
use crate::json::{
    lemma_array_view, lemma_field_is_smaller, lemma_item_is_smaller, lemma_object_view, same_text,
    Json, JsonValue,
};
use crate::location::{fragment, resource, url_fragment, url_resource};
use crate::pointer::{lookup, pointed};
use vstd::prelude::*;

verus! {

/// The dialects of the schema language.
#[derive(Clone, Copy, Debug, PartialEq, Eq, Structural)]
pub enum Draft {
    Draft4,
    Draft6,
    Draft7,
}

/// The name of the keyword that holds a reference.
pub open spec fn reference_keyword() -> Seq<char> {
    "$ref"@
}

/// How many members called `$ref` the first `upto` elements of an array
/// hold, at any depth.
pub open spec fn references_in_items(items: Seq<JsonValue>, upto: int) -> nat
    decreases items, upto,
{
    if upto <= 0 || upto > items.len() {
        0
    } else {
        references_in_items(items, upto - 1) + references_in(items[upto - 1])
    }
}

/// How many members called `$ref` the first `upto` members of an object are
/// or hold, at any depth.
pub open spec fn references_in_members(members: Seq<(Seq<char>, JsonValue)>, upto: int) -> nat
    decreases members, upto,
{
    if upto <= 0 || upto > members.len() {
        0
    } else {
        let here: nat = if members[upto - 1].0 == reference_keyword() {
            1
        } else {
            0
        };
        references_in_members(members, upto - 1) + here + references_in(members[upto - 1].1)
    }
}

/// How many members called `$ref` a document holds, at any depth.
pub open spec fn references_in(document: JsonValue) -> nat
    decreases document,
{
    match document {
        JsonValue::Array(items) => references_in_items(items, items.len() as int),
        JsonValue::Object(members) => references_in_members(members, members.len() as int),
        _ => 0,
    }
}

/// How many references may follow one another on one instance value: one
/// more than the document has members called `$ref`, as far as a `usize`
/// holds it. That is as long as a chain can get that begins at any
/// reference and passes no member of the document twice.
pub open spec fn reference_limit(document: JsonValue) -> nat {
    if references_in(document) < usize::MAX {
        references_in(document) + 1
    } else {
        usize::MAX as nat
    }
}

/// `a + b`, or `usize::MAX` where that is less.
fn capped_sum(a: usize, b: usize) -> (sum: usize)
    ensures
        sum == if a + b < usize::MAX {
            a + b
        } else {
            usize::MAX as int
        },
{
    if a < usize::MAX - b {
        a + b
    } else {
        usize::MAX
    }
}

/// Counts the members called `$ref` in a document, up to `usize::MAX`.
fn count_references(document: &Json) -> (count: usize)
    ensures
        count == if references_in(document@) < usize::MAX {
            references_in(document@)
        } else {
            usize::MAX as nat
        },
    decreases document@,
{
    match document {
        Json::Array(items) => {
            proof {
                lemma_array_view(*document);
            }
            let ghost model = document@->Array_0;
            let mut count: usize = 0;
            let mut i: usize = 0;
            while i < items.len()
                invariant
                    i <= items.len(),
                    document@ == JsonValue::Array(model),
                    model.len() == items.len(),
                    forall|k: int| 0 <= k < items.len() ==> #[trigger] model[k] == items[k]@,
                    count == if references_in_items(model, i as int) < usize::MAX {
                        references_in_items(model, i as int)
                    } else {
                        usize::MAX as nat
                    },
                decreases items.len() - i,
            {
                proof {
                    lemma_item_is_smaller(document@, i as int);
                }
                let inner = count_references(&items[i]);
                count = capped_sum(count, inner);
                i += 1;
            }
            count
        },
        Json::Object(members) => {
            proof {
                lemma_object_view(*document);
            }
            let ghost model = document@->Object_0;
            let mut count: usize = 0;
            let mut i: usize = 0;
            while i < members.len()
                invariant
                    i <= members.len(),
                    document@ == JsonValue::Object(model),
                    model.len() == members.len(),
                    forall|k: int|
                        0 <= k < members.len() ==> #[trigger] model[k] == (
                            members[k].0@,
                            members[k].1@,
                        ),
                    count == if references_in_members(model, i as int) < usize::MAX {
                        references_in_members(model, i as int)
                    } else {
                        usize::MAX as nat
                    },
                decreases members.len() - i,
            {
                if same_text(members[i].0.as_str(), "$ref") {
                    count = capped_sum(count, 1);
                }
                proof {
                    lemma_field_is_smaller(document@, i as int);
                }
                let inner = count_references(&members[i].1);
                count = capped_sum(count, inner);
                i += 1;
            }
            count
        },
        _ => 0,
    }
}

/// The mathematical model of a resolver: the document it holds, the URL
/// that the document is known by, and how many references may follow one
/// another.
pub struct ResolverView {
    pub scope: Seq<char>,
    pub document: JsonValue,
    pub limit: nat,
}

/// What a reference to `target` resolves to in a resolver: the scope in
/// effect at the value found, and that value. The target names the
/// resolver's document when, without its fragment, it is the document's
/// URL; its fragment is then read as a pointer into the document, as it is
/// written in the URL: percent escapes are not undone. The dialect plays no
/// part.
pub open spec fn resolved(resolver: ResolverView, draft: Draft, target: Seq<char>) -> Result<
    (Seq<char>, JsonValue),
    ResolutionError,
> {
    match url_resource(target) {
        None => Err(ResolutionError::InvalidTarget),
        Some(document_url) => if document_url != resolver.scope {
            Err(ResolutionError::UnknownDocument)
        } else {
            let pointer = match url_fragment(target) {
                Some(text) => text,
                None => Seq::empty(),
            };
            match pointed(resolver.document, pointer) {
                Some(value) => Ok((document_url, value)),
                None => Err(ResolutionError::MissingFragment),
            }
        },
    }
}

/// Holds one schema document and finds in it what references point to.
#[derive(Debug)]
pub struct Resolver {
    scope: String,
    document: Json,
    limit: usize,
}

impl View for Resolver {
    type V = ResolverView;

    closed spec fn view(&self) -> ResolverView {
        ResolverView { scope: self.scope@, document: self.document@, limit: self.limit as nat }
    }
}

impl Resolver {
    /// A resolver for `document`, which is known by the URL `scope`.
    pub fn new(scope: String, document: Json) -> (resolver: Resolver)
        ensures
            resolver@ == (ResolverView {
                scope: scope@,
                document: document@,
                limit: reference_limit(document@),
            }),
    {
        let limit = capped_sum(count_references(&document), 1);
        Resolver { scope, document, limit }
    }

    /// The URL that the document is known by.
    pub fn scope(&self) -> (scope: &str)
        ensures
            scope@ == self@.scope,
    {
        self.scope.as_str()
    }

    /// The document.
    pub fn document(&self) -> (document: &Json)
        ensures
            document@ == self@.document,
    {
        &self.document
    }

    /// How many references may follow one another on one instance value.
    pub fn reference_limit(&self) -> (limit: usize)
        ensures
            limit == self@.limit,
    {
        self.limit
    }

    /// Finds the value that `target` points to, and the scope in effect
    /// there. Every dialect reads a target alike.
    pub fn resolve_fragment<'a>(&'a self, draft: Draft, target: &str) -> (found: Result<
        (String, &'a Json),
        ResolutionError,
    >)
        ensures
            match found {
                Ok((scope, value)) => resolved(self@, draft, target@) == Ok::<
                    (Seq<char>, JsonValue),
                    ResolutionError,
                >((scope@, value@)),
                Err(error) => resolved(self@, draft, target@) == Err::<
                    (Seq<char>, JsonValue),
                    ResolutionError,
                >(error),
            },
    {
        match resource(target) {
            Err(_) => Err(ResolutionError::InvalidTarget),
            Ok(document_url) => {
                if !same_text(document_url.as_str(), self.scope.as_str()) {
                    return Err(ResolutionError::UnknownDocument);
                }
                let value = match fragment(target) {
                    Some(pointer) => lookup(&self.document, pointer.as_str()),
                    None => {
                        proof {
                            reveal_strlit("");
                            assert(""@ =~= Seq::<char>::empty());
                        }
                        lookup(&self.document, "")
                    },
                };
                match value {
                    Some(value) => Ok((document_url, value)),
                    None => Err(ResolutionError::MissingFragment),
                }
            },
        }
    }
}

} // verus!
