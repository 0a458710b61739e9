//! Paths into a schema or an instance: sequences of tokens.
use vstd::prelude::*;
use vstd::string::StringExecFns;

verus! {

/// A path of tokens, from the root of a document to one of its values.
#[derive(Debug, PartialEq, Eq)]
pub struct JsonPointer {
    tokens: Vec<String>,
}

impl View for JsonPointer {
    type V = Seq<Seq<char>>;

    closed spec fn view(&self) -> Seq<Seq<char>> {
        self.tokens@.map_values(|token: String| token@)
    }
}

/// The text of a path: each token behind a slash, nothing for the empty
/// path.
pub open spec fn rendered(tokens: Seq<Seq<char>>) -> Seq<char>
    decreases tokens.len(),
{
    if tokens.len() == 0 {
        Seq::empty()
    } else {
        rendered(tokens.drop_last()) + seq!['/'] + tokens.last()
    }
}

impl JsonPointer {
    /// The empty path.
    pub fn new() -> (path: JsonPointer)
        ensures
            path@ == Seq::<Seq<char>>::empty(),
    {
        let path = JsonPointer { tokens: Vec::new() };
        assert(path@ =~= Seq::<Seq<char>>::empty());
        path
    }

    /// The number of tokens.
    pub fn len(&self) -> (n: usize)
        ensures
            n == self@.len(),
    {
        self.tokens.len()
    }

    /// The token at `index`.
    pub fn token(&self, index: usize) -> (token: &str)
        requires
            index < self@.len(),
        ensures
            token@ == self@[index as int],
    {
        self.tokens[index].as_str()
    }

    /// This path with one more token at its end.
    pub fn with(&self, token: &str) -> (path: JsonPointer)
        ensures
            path@ == self@.push(token@),
    {
        let mut tokens = self.copy_tokens();
        tokens.push(String::from_str(token));
        let path = JsonPointer { tokens };
        assert(path@ =~= self@.push(token@));
        path
    }

    /// This path followed by `other`.
    pub fn extend_with(&self, other: &JsonPointer) -> (path: JsonPointer)
        ensures
            path@ == self@ + other@,
    {
        let mut tokens = self.copy_tokens();
        let mut i: usize = 0;
        while i < other.tokens.len()
            invariant
                i <= other.tokens.len(),
                tokens@.len() == self.tokens@.len() + i,
                forall|k: int| 0 <= k < self.tokens@.len() ==> tokens@[k]@ == self.tokens@[k]@,
                forall|k: int| 0 <= k < i ==> tokens@[self.tokens@.len() + k]@ == other.tokens@[k]@,
            decreases other.tokens.len() - i,
        {
            tokens.push(other.tokens[i].clone());
            i += 1;
        }
        let path = JsonPointer { tokens };
        assert(path@ =~= self@ + other@);
        path
    }

    /// A copy of this path.
    pub fn duplicate(&self) -> (path: JsonPointer)
        ensures
            path@ == self@,
    {
        let path = JsonPointer { tokens: self.copy_tokens() };
        assert(path@ =~= self@);
        path
    }

    /// The text of this path, such as `/properties/foo/type`.
    pub fn to_string(&self) -> (text: String)
        ensures
            text@ == rendered(self@),
    {
        let mut text = String::new();
        let mut i: usize = 0;
        assert(self@.take(0) =~= Seq::<Seq<char>>::empty());
        while i < self.tokens.len()
            invariant
                i <= self.tokens.len(),
                text@ == rendered(self@.take(i as int)),
            decreases self.tokens.len() - i,
        {
            proof {
                reveal_strlit("/");
                let next = self@.take(i + 1);
                assert(next.drop_last() =~= self@.take(i as int));
                assert(next.last() == self.tokens[i as int]@);
                assert("/"@ =~= seq!['/']);
            }
            text.append("/");
            text.append(self.tokens[i].as_str());
            i += 1;
        }
        assert(self@.take(i as int) =~= self@);
        text
    }

    fn copy_tokens(&self) -> (tokens: Vec<String>)
        ensures
            tokens@.len() == self.tokens@.len(),
            forall|k: int| 0 <= k < tokens@.len() ==> tokens@[k]@ == self.tokens@[k]@,
    {
        let mut tokens: Vec<String> = Vec::new();
        let mut i: usize = 0;
        while i < self.tokens.len()
            invariant
                i <= self.tokens.len(),
                tokens@.len() == i,
                forall|k: int| 0 <= k < i ==> tokens@[k]@ == self.tokens@[k]@,
            decreases self.tokens.len() - i,
        {
            tokens.push(self.tokens[i].clone());
            i += 1;
        }
        tokens
    }
}

} // verus!
