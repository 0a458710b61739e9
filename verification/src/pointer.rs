//! Looking a value up in a document by the text of a JSON pointer.
use crate::json::{lemma_array_view, Json, JsonValue};
use vstd::prelude::*;
use vstd::string::StringExecFns;

verus! {

/// The pieces of `text` between its slashes: one more than it has slashes.
pub open spec fn split(text: Seq<char>) -> Seq<Seq<char>>
    decreases text.len(),
{
    if text.len() == 0 {
        seq![Seq::empty()]
    } else {
        let before = split(text.drop_last());
        if text.last() == '/' {
            before.push(Seq::empty())
        } else {
            before.drop_last().push(before.last().push(text.last()))
        }
    }
}

/// A token with its escapes undone: `~0` stands for a tilde and `~1` for a
/// slash.
pub open spec fn unescaped(token: Seq<char>) -> Seq<char>
    decreases token.len(),
{
    if token.len() == 0 {
        Seq::empty()
    } else if token.len() >= 2 && token[0] == '~' && token[1] == '0' {
        seq!['~'] + unescaped(token.skip(2))
    } else if token.len() >= 2 && token[0] == '~' && token[1] == '1' {
        seq!['/'] + unescaped(token.skip(2))
    } else {
        seq![token[0]] + unescaped(token.skip(1))
    }
}

/// The tokens of a pointer: none for the empty text, else the text must
/// begin with a slash, and each piece behind a slash is one token.
pub open spec fn pointer_tokens(text: Seq<char>) -> Option<Seq<Seq<char>>> {
    if text.len() == 0 {
        Some(Seq::empty())
    } else if text[0] != '/' {
        None
    } else {
        Some(split(text.skip(1)).map_values(|piece: Seq<char>| unescaped(piece)))
    }
}

/// Whether `c` is a decimal digit.
pub open spec fn is_digit(c: char) -> bool {
    '0' <= c <= '9'
}

/// Whether a token names a place in an array: decimal digits, with no zero
/// in front of another digit.
pub open spec fn is_index(token: Seq<char>) -> bool {
    &&& token.len() > 0
    &&& forall|i: int| 0 <= i < token.len() ==> is_digit(#[trigger] token[i])
    &&& token.len() > 1 ==> token[0] != '0'
}

/// The number that decimal digits write.
pub open spec fn decimal(digits: Seq<char>) -> nat
    decreases digits.len(),
{
    if digits.len() == 0 {
        0
    } else {
        (decimal(digits.drop_last()) * 10 + (digits.last() as u32 - '0' as u32)) as nat
    }
}

/// One step down from `value`: into the member of an object that the token
/// names, or to the place in an array that it numbers.
pub open spec fn step(value: JsonValue, token: Seq<char>) -> Option<JsonValue> {
    match value {
        JsonValue::Object(_) => value.member(token),
        JsonValue::Array(_) => if is_index(token) {
            value.element(decimal(token) as int)
        } else {
            None
        },
        _ => None,
    }
}

/// The value that is reached from `value` by following `tokens` in turn.
pub open spec fn descend(value: JsonValue, tokens: Seq<Seq<char>>) -> Option<JsonValue>
    decreases tokens.len(),
{
    if tokens.len() == 0 {
        Some(value)
    } else {
        match step(value, tokens[0]) {
            Some(next) => descend(next, tokens.skip(1)),
            None => None,
        }
    }
}

/// The value in `document` that the pointer `text` points to.
pub open spec fn pointed(document: JsonValue, text: Seq<char>) -> Option<JsonValue> {
    match pointer_tokens(text) {
        Some(tokens) => descend(document, tokens),
        None => None,
    }
}

/// The characters of a string.
pub fn chars_of(text: &str) -> (chars: Vec<char>)
    ensures
        chars@ == text@,
{
    let mut chars: Vec<char> = Vec::new();
    for c in it: text.chars()
        invariant
            chars@ == it.history(),
            it.seq() == text@,
    {
        chars.push(c);
    }
    assert(chars@ =~= text@);
    chars
}

/// Undoes the escapes in the characters `from..to` of `text`.
fn unescape(text: &str, chars: &Vec<char>, from: usize, to: usize) -> (token: String)
    requires
        chars@ == text@,
        from <= to <= chars@.len(),
    ensures
        token@ == unescaped(text@.subrange(from as int, to as int)),
{
    let ghost piece = text@.subrange(from as int, to as int);
    let mut token = String::new();
    let mut k: usize = from;
    assert(piece.skip(0) =~= piece);
    while k < to
        invariant
            from <= k <= to <= chars@.len(),
            chars@ == text@,
            piece == text@.subrange(from as int, to as int),
            unescaped(piece) == token@ + unescaped(piece.skip(k - from)),
        decreases to - k,
    {
        let ghost rest = piece.skip(k - from);
        assert(rest.len() == to - k);
        assert(rest[0] == chars@[k as int]);
        if chars[k] == '~' && k + 1 < to && chars[k + 1] == '0' {
            proof {
                reveal_strlit("~");
                assert(rest[1] == chars@[k + 1]);
                assert(rest.skip(2) =~= piece.skip(k + 2 - from));
                assert("~"@ =~= seq!['~']);
                assert((token@ + seq!['~']) + unescaped(rest.skip(2)) =~= token@ + (seq!['~']
                    + unescaped(rest.skip(2))));
            }
            token.append("~");
            k += 2;
        } else if chars[k] == '~' && k + 1 < to && chars[k + 1] == '1' {
            proof {
                reveal_strlit("/");
                assert(rest[1] == chars@[k + 1]);
                assert(rest.skip(2) =~= piece.skip(k + 2 - from));
                assert("/"@ =~= seq!['/']);
                assert((token@ + seq!['/']) + unescaped(rest.skip(2)) =~= token@ + (seq!['/']
                    + unescaped(rest.skip(2))));
            }
            token.append("/");
            k += 2;
        } else {
            proof {
                if rest.len() >= 2 {
                    assert(rest[1] == chars@[k + 1]);
                }
                assert(rest.skip(1) =~= piece.skip(k + 1 - from));
                assert(text@.subrange(k as int, k + 1) =~= seq![rest[0]]);
                assert((token@ + seq![rest[0]]) + unescaped(rest.skip(1)) =~= token@ + (
                seq![rest[0]] + unescaped(rest.skip(1))));
            }
            token.append(text.substring_char(k, k + 1));
            k += 1;
        }
    }
    assert(piece.skip(to - from) =~= Seq::<char>::empty());
    assert(token@ + Seq::<char>::empty() =~= token@);
    token
}

/// The tokens of the pointer `text`, or `None` where it is no pointer.
pub fn tokens_of(text: &str) -> (tokens: Option<Vec<String>>)
    ensures
        match tokens {
            Some(found) => pointer_tokens(text@) == Some(
                found@.map_values(|token: String| token@),
            ),
            None => pointer_tokens(text@).is_none(),
        },
{
    let chars = chars_of(text);
    let mut tokens: Vec<String> = Vec::new();
    if chars.len() == 0 {
        assert(tokens@.map_values(|token: String| token@) =~= Seq::<Seq<char>>::empty());
        return Some(tokens);
    }
    if chars[0] != '/' {
        return None;
    }
    let ghost body = text@.skip(1);
    let mut start: usize = 1;
    let mut k: usize = 1;
    assert(body.take(0) =~= Seq::<char>::empty());
    assert(text@.subrange(1, 1) =~= Seq::<char>::empty());
    assert(split(body.take(0)) =~= tokens@.map_values(|token: String| token@).map_values(
        |piece: Seq<char>| piece,
    ).push(Seq::empty()));
    while k < chars.len()
        invariant
            1 <= start <= k <= chars@.len(),
            chars@ == text@,
            body == text@.skip(1),
            split(body.take(k - 1)).len() == tokens@.len() + 1,
            split(body.take(k - 1)).last() == text@.subrange(start as int, k as int),
            forall|i: int|
                0 <= i < tokens@.len() ==> (#[trigger] tokens@[i])@ == unescaped(
                    split(body.take(k - 1))[i],
                ),
        decreases chars@.len() - k,
    {
        let ghost before = split(body.take(k - 1));
        let ghost next = body.take(k as int);
        proof {
            assert(next.drop_last() =~= body.take(k - 1));
            assert(next.last() == chars@[k as int]);
        }
        if chars[k] == '/' {
            let token = unescape(text, &chars, start, k);
            tokens.push(token);
            start = k + 1;
            proof {
                assert(split(next) == before.push(Seq::empty()));
                assert(text@.subrange(start as int, k + 1) =~= Seq::<char>::empty());
            }
        } else {
            proof {
                assert(split(next) == before.drop_last().push(before.last().push(chars@[k as int])));
                assert(text@.subrange(start as int, k + 1) =~= text@.subrange(
                    start as int,
                    k as int,
                ).push(chars@[k as int]));
            }
        }
        k += 1;
    }
    let token = unescape(text, &chars, start, k);
    tokens.push(token);
    proof {
        assert(body.take(k - 1) =~= body);
        assert(tokens@.map_values(|token: String| token@) =~= split(body).map_values(
            |piece: Seq<char>| unescaped(piece),
        ));
    }
    Some(tokens)
}

/// The number that the first `n` of some digits write is no greater than
/// the number that all of them write.
proof fn lemma_decimal_grows(digits: Seq<char>, n: int)
    requires
        0 <= n <= digits.len(),
        forall|i: int| 0 <= i < digits.len() ==> is_digit(#[trigger] digits[i]),
    ensures
        decimal(digits.take(n)) <= decimal(digits),
    decreases digits.len() - n,
{
    if n < digits.len() {
        let longer = digits.take(n + 1);
        assert(longer.drop_last() =~= digits.take(n));
        assert(is_digit(digits[n]));
        assert(longer.last() == digits[n]);
        lemma_decimal_grows(digits, n + 1);
    } else {
        assert(digits.take(n) =~= digits);
    }
}

/// The place in an array that `token` numbers, where it numbers one that a
/// `usize` can hold.
pub fn index_of(token: &str) -> (index: Option<usize>)
    ensures
        match index {
            Some(i) => is_index(token@) && decimal(token@) == i,
            None => !is_index(token@) || decimal(token@) > usize::MAX,
        },
{
    let chars = chars_of(token);
    if chars.len() == 0 {
        return None;
    }
    if chars.len() > 1 && chars[0] == '0' {
        return None;
    }
    let mut value: usize = 0;
    let mut k: usize = 0;
    assert(token@.take(0) =~= Seq::<char>::empty());
    while k < chars.len()
        invariant
            k <= chars@.len(),
            chars@ == token@,
            forall|i: int| 0 <= i < k ==> is_digit(#[trigger] token@[i]),
            value == decimal(token@.take(k as int)),
        decreases chars@.len() - k,
    {
        let c = chars[k];
        if !('0' <= c && c <= '9') {
            assert(!is_digit(token@[k as int]));
            return None;
        }
        let digit: usize = (c as u32 - '0' as u32) as usize;
        proof {
            let longer = token@.take(k + 1);
            assert(longer.drop_last() =~= token@.take(k as int));
            assert(longer.last() == c);
        }
        if value > (usize::MAX - digit) / 10 {
            proof {
                if is_index(token@) {
                    lemma_decimal_grows(token@, k + 1);
                }
            }
            return None;
        }
        value = value * 10 + digit;
        k += 1;
    }
    assert(token@.take(k as int) =~= token@);
    Some(value)
}

/// The value that is reached from `value` by following `tokens` in turn.
pub fn follow<'a>(value: &'a Json, tokens: &Vec<String>) -> (found: Option<&'a Json>)
    ensures
        match found {
            Some(target) => descend(value@, tokens@.map_values(|token: String| token@)) == Some(
                target@,
            ),
            None => descend(value@, tokens@.map_values(|token: String| token@)).is_none(),
        },
{
    let ghost names = tokens@.map_values(|token: String| token@);
    let mut current: &'a Json = value;
    let mut i: usize = 0;
    assert(names.skip(0) =~= names);
    while i < tokens.len()
        invariant
            i <= tokens@.len(),
            names == tokens@.map_values(|token: String| token@),
            descend(value@, names) == descend(current@, names.skip(i as int)),
        decreases tokens@.len() - i,
    {
        let ghost rest = names.skip(i as int);
        assert(rest[0] == tokens@[i as int]@);
        assert(rest.skip(1) =~= names.skip(i + 1));
        let token = tokens[i].as_str();
        let next = match current {
            Json::Object(_) => current.member(token),
            Json::Array(items) => {
                proof {
                    lemma_array_view(*current);
                }
                match index_of(token) {
                    Some(at) => current.element(at),
                    None => None,
                }
            },
            _ => None,
        };
        match next {
            Some(inner) => {
                current = inner;
            },
            None => {
                return None;
            },
        }
        i += 1;
    }
    Some(current)
}

/// The value in `document` that the pointer `text` points to.
pub fn lookup<'a>(document: &'a Json, text: &str) -> (found: Option<&'a Json>)
    ensures
        match found {
            Some(target) => pointed(document@, text@) == Some(target@),
            None => pointed(document@, text@).is_none(),
        },
{
    match tokens_of(text) {
        Some(tokens) => follow(document, &tokens),
        None => None,
    }
}

} // verus!
