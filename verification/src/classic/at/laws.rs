//! What is written as a parameter list is what is read from it.

use vstd::prelude::*;
use crate::classic::at;
use crate::classic::at::{AtParameterModel, ParserModel, TokenModel, TokenizerModel};

verus! {

// ---------------------------------------------------------------------------
// Tokens, byte by byte
// ---------------------------------------------------------------------------

/// A tokenizer between two tokens.
pub open spec fn between(tokens: Seq<TokenModel>) -> TokenizerModel {
    TokenizerModel { tokens, token: seq![], in_quotes: false }
}

/// What a tokenizer becomes when it reads bytes, or why it fails.
pub open spec fn after_reading(t: TokenizerModel, s: Seq<u8>) -> Result<TokenizerModel, Seq<char>>
    decreases s.len(),
{
    if s.len() == 0 {
        Ok(t)
    } else {
        match at::token_step(t, s[0]) {
            Ok(next) => after_reading(next, s.skip(1)),
            Err(why) => Err(why),
        }
    }
}

/// Reading two parts is reading the first and then the second.
pub proof fn lemma_reading_parts(t: TokenizerModel, a: Seq<u8>, b: Seq<u8>)
    ensures
        at::tokens_from(t, a + b) == (match after_reading(t, a) {
            Ok(next) => at::tokens_from(next, b),
            Err(why) => Err(why),
        }),
    decreases a.len(),
{
    if a.len() == 0 {
        assert(a + b =~= b);
    } else {
        assert((a + b)[0] == a[0]);
        assert((a + b).skip(1) =~= a.skip(1) + b);
        match at::token_step(t, a[0]) {
            Ok(next) => {
                lemma_reading_parts(next, a.skip(1), b);
            },
            Err(_) => {},
        }
    }
}

/// Spaces outside quotes are ignored: one more or less, anywhere but inside a
/// quoted string, gives the same tokens.
pub proof fn law_spaces_are_ignored(a: Seq<u8>, b: Seq<u8>)
    requires
        after_reading(between(seq![]), a) is Ok ==> !after_reading(between(seq![]), a)->Ok_0.in_quotes,
    ensures
        at::tokens_of(a + seq![32u8] + b) == at::tokens_of(a + b),
        at::parameters_of(a + seq![32u8] + b) == at::parameters_of(a + b),
{
    let t = between(seq![]);
    assert(a + seq![32u8] + b =~= a + (seq![32u8] + b));
    lemma_reading_parts(t, a, seq![32u8] + b);
    lemma_reading_parts(t, a, b);
    let rest = seq![32u8] + b;
    assert(rest[0] == 32);
    assert(rest.skip(1) =~= b);
}

// ---------------------------------------------------------------------------
// Written parameters
// ---------------------------------------------------------------------------

/// A parameter as it is written.
pub enum Written {
    /// A run of ordinary characters, perhaps empty.
    Bare(Seq<u8>),
    /// A string in double quotes.
    Quoted(Seq<u8>),
    /// A list in parentheses.
    Group(Seq<Written>),
}

/// Whether a byte stands for itself outside quotes.
pub open spec fn is_ordinary(b: u8) -> bool {
    b != 32 && b != 34 && b != 40 && b != 41 && b != 44
}

/// Whether bytes are all ordinary.
pub open spec fn all_ordinary(s: Seq<u8>) -> bool {
    forall|i: int| 0 <= i < s.len() ==> is_ordinary(#[trigger] s[i])
}

/// Whether bytes can stand in double quotes: there is no double quote among
/// them.
pub open spec fn can_be_quoted(s: Seq<u8>) -> bool {
    forall|i: int| 0 <= i < s.len() ==> #[trigger] s[i] != 34
}

impl Written {
    /// Whether the parameter can be written.
    pub open spec fn writable(self) -> bool
        decreases self,
    {
        match self {
            Written::Bare(value) => all_ordinary(value),
            Written::Quoted(value) => can_be_quoted(value),
            Written::Group(items) => all_writable(items),
        }
    }

    /// The bytes of the parameter.
    pub open spec fn wire(self) -> Seq<u8>
        decreases self,
    {
        match self {
            Written::Bare(value) => value,
            Written::Quoted(value) => seq![34u8] + value + seq![34u8],
            Written::Group(items) => seq![40u8] + wire_all(items) + seq![41u8],
        }
    }

    /// The parameter that is meant. A list without parameters has an empty
    /// one.
    pub open spec fn meaning(self) -> AtParameterModel
        decreases self,
    {
        match self {
            Written::Bare(value) => AtParameterModel::Value(value),
            Written::Quoted(value) => AtParameterModel::Value(value),
            Written::Group(items) => AtParameterModel::List(
                if items.len() == 0 {
                    seq![AtParameterModel::Value(seq![])]
                } else {
                    meaning_all(items)
                },
            ),
        }
    }

    /// The tokens of the parameter.
    spec fn tokens(self) -> Seq<TokenModel>
        decreases self,
    {
        match self {
            Written::Bare(value) => at::with_token(seq![], at::bare(value)),
            Written::Quoted(value) => at::with_token(seq![], at::in_quotation(value)),
            Written::Group(items) => seq![at::bare(seq![40u8])] + tokens_all(items) + seq![
                at::bare(seq![41u8]),
            ],
        }
    }
}

/// Whether parameters can all be written.
pub open spec fn all_writable(items: Seq<Written>) -> bool
    decreases items,
{
    items.len() > 0 ==> all_writable(items.drop_last()) && items.last().writable()
}

/// The bytes of parameters, separated by commas.
pub open spec fn wire_all(items: Seq<Written>) -> Seq<u8>
    decreases items,
{
    if items.len() == 0 {
        seq![]
    } else if items.len() == 1 {
        items.last().wire()
    } else {
        wire_all(items.drop_last()) + seq![44u8] + items.last().wire()
    }
}

/// The parameters that are meant.
pub open spec fn meaning_all(items: Seq<Written>) -> Seq<AtParameterModel>
    decreases items,
{
    if items.len() == 0 {
        seq![]
    } else {
        meaning_all(items.drop_last()).push(items.last().meaning())
    }
}

/// The tokens of parameters.
spec fn tokens_all(items: Seq<Written>) -> Seq<TokenModel>
    decreases items,
{
    if items.len() == 0 {
        seq![]
    } else if items.len() == 1 {
        items.last().tokens()
    } else {
        tokens_all(items.drop_last()) + seq![at::bare(seq![44u8])] + items.last().tokens()
    }
}

/// Whether what comes next ends a parameter.
spec fn is_end(rest: Seq<u8>) -> bool {
    rest.len() == 0 || rest[0] == 41 || rest[0] == 44
}

/// Ordinary bytes make up a token.
proof fn lemma_bare_read(tokens: Seq<TokenModel>, token: Seq<u8>, s: Seq<u8>, rest: Seq<u8>)
    requires
        all_ordinary(s),
    ensures
        at::tokens_from(TokenizerModel { tokens, token, in_quotes: false }, s + rest)
            == at::tokens_from(
            TokenizerModel { tokens, token: token + s, in_quotes: false },
            rest,
        ),
    decreases s.len(),
{
    if s.len() == 0 {
        assert(s + rest =~= rest);
        assert(token + s =~= token);
    } else {
        assert(is_ordinary(s[0]));
        assert((s + rest)[0] == s[0]);
        assert((s + rest).skip(1) =~= s.skip(1) + rest);
        assert(all_ordinary(s.skip(1))) by {
            assert forall|i: int| 0 <= i < s.skip(1).len() implies is_ordinary(
                #[trigger] s.skip(1)[i],
            ) by {
                assert(is_ordinary(s[i + 1]));
            }
        }
        lemma_bare_read(tokens, token.push(s[0]), s.skip(1), rest);
        assert(token.push(s[0]) + s.skip(1) =~= token + s);
    }
}

/// Bytes in quotes make up a token.
proof fn lemma_quoted_read(tokens: Seq<TokenModel>, token: Seq<u8>, s: Seq<u8>, rest: Seq<u8>)
    requires
        forall|i: int| 0 <= i < s.len() ==> #[trigger] s[i] != 34,
        token.len() > 0,
    ensures
        at::tokens_from(
            TokenizerModel { tokens, token, in_quotes: true },
            s + (seq![34u8] + rest),
        ) == at::tokens_from(between(at::with_token(tokens, at::in_quotation(token.skip(1) + s))), rest),
    decreases s.len(),
{
    let end = seq![34u8] + rest;
    if s.len() == 0 {
        assert(s + end =~= end);
        assert(end[0] == 34);
        assert(end.skip(1) =~= rest);
        assert(token.skip(1) + s =~= token.skip(1));
    } else {
        assert((s + end)[0] == s[0]);
        assert((s + end).skip(1) =~= s.skip(1) + end);
        assert forall|i: int| 0 <= i < s.skip(1).len() implies #[trigger] s.skip(1)[i] != 34 by {
            assert(s[i + 1] != 34);
        }
        lemma_quoted_read(tokens, token.push(s[0]), s.skip(1), rest);
        assert(token.push(s[0]).skip(1) + s.skip(1) =~= token.skip(1) + s);
    }
}

/// A token that ends counts as complete.
proof fn lemma_token_ends(tokens: Seq<TokenModel>, token: Seq<u8>, rest: Seq<u8>)
    requires
        is_end(rest),
    ensures
        at::tokens_from(TokenizerModel { tokens, token, in_quotes: false }, rest)
            == at::tokens_from(between(at::with_token(tokens, at::bare(token))), rest),
{
}

/// A written parameter is read as its tokens.
proof fn lemma_tokens_read(tokens: Seq<TokenModel>, w: Written, rest: Seq<u8>)
    requires
        w.writable(),
        is_end(rest),
    ensures
        at::tokens_from(between(tokens), w.wire() + rest) == at::tokens_from(
            between(tokens + w.tokens()),
            rest,
        ),
    decreases w, 0nat,
{
    match w {
        Written::Bare(value) => {
            lemma_bare_read(tokens, seq![], value, rest);
            assert(seq![] + value =~= value);
            lemma_token_ends(tokens, value, rest);
            assert(at::with_token(tokens, at::bare(value)) =~= tokens + w.tokens());
        },
        Written::Quoted(value) => {
            let all = w.wire() + rest;
            assert(all =~= seq![34u8] + (value + (seq![34u8] + rest)));
            assert(all[0] == 34);
            assert(all.skip(1) =~= value + (seq![34u8] + rest));
            lemma_quoted_read(tokens, seq![34u8], value, rest);
            assert(seq![34u8].skip(1) + value =~= value);
            assert(at::with_token(tokens, at::in_quotation(value)) =~= tokens + w.tokens());
        },
        Written::Group(items) => {
            let all = w.wire() + rest;
            let close = seq![41u8] + rest;
            assert(all =~= seq![40u8] + (wire_all(items) + close));
            assert(all[0] == 40);
            assert(all.skip(1) =~= wire_all(items) + close);
            let opened = tokens.push(at::bare(seq![40u8]));
            assert(at::token_step(between(tokens), 40) == Ok::<TokenizerModel, Seq<char>>(
                between(opened),
            ));
            assert(close[0] == 41);
            lemma_all_tokens_read(opened, items, close);
            assert(close.skip(1) =~= rest);
            let inner = opened + tokens_all(items);
            assert(inner.push(at::bare(seq![41u8])) =~= tokens + w.tokens());
        },
    }
}

/// Written parameters are read as their tokens.
proof fn lemma_all_tokens_read(tokens: Seq<TokenModel>, items: Seq<Written>, rest: Seq<u8>)
    requires
        all_writable(items),
        is_end(rest),
    ensures
        at::tokens_from(between(tokens), wire_all(items) + rest) == at::tokens_from(
            between(tokens + tokens_all(items)),
            rest,
        ),
    decreases items, 1nat,
{
    if items.len() == 0 {
        assert(wire_all(items) + rest =~= rest);
        assert(tokens + tokens_all(items) =~= tokens);
    } else if items.len() == 1 {
        lemma_tokens_read(tokens, items.last(), rest);
    } else {
        let last = items.last();
        let before = items.drop_last();
        let next = seq![44u8] + (last.wire() + rest);
        assert(wire_all(items) + rest =~= wire_all(before) + next);
        assert(next[0] == 44);
        assert(next.skip(1) =~= last.wire() + rest);
        lemma_all_tokens_read(tokens, before, next);
        let read = tokens + tokens_all(before);
        lemma_tokens_read(read.push(at::bare(seq![44u8])), last, rest);
        assert(read.push(at::bare(seq![44u8])) + last.tokens() =~= tokens + tokens_all(items));
    }
}

/// A parser between two parameters.
spec fn ready(open: Seq<Seq<AtParameterModel>>) -> ParserModel {
    ParserModel { open, current: AtParameterModel::Value(seq![]) }
}

/// The tokens of a parameter are read as the parameter.
proof fn lemma_parameter_read(
    open: Seq<Seq<AtParameterModel>>,
    w: Written,
    rest: Seq<TokenModel>,
)
    requires
        w.writable(),
        open.len() > 0,
    ensures
        at::parameters_from(ready(open), w.tokens() + rest) == at::parameters_from(
            ParserModel { open, current: w.meaning() },
            rest,
        ),
    decreases w, 0nat,
{
    match w {
        Written::Bare(value) => {
            lemma_value_read(open, at::bare(value), rest);
        },
        Written::Quoted(value) => {
            lemma_value_read(open, at::in_quotation(value), rest);
        },
        Written::Group(items) => {
            let all = w.tokens() + rest;
            let close = seq![at::bare(seq![41u8])] + rest;
            assert(all =~= seq![at::bare(seq![40u8])] + (tokens_all(items) + close));
            assert(all[0] == at::bare(seq![40u8]));
            assert(all.skip(1) =~= tokens_all(items) + close);
            lemma_punctuation();
            let opened = open.push(seq![]);
            assert(at::parser_step(ready(open), all[0]) == Ok::<ParserModel, Seq<char>>(
                ready(opened),
            ));
            lemma_all_parameters_read(opened, items, close);
            assert(close[0] == at::bare(seq![41u8]));
            assert(close.skip(1) =~= rest);
            let p = pending(opened, items);
            assert(p.open.drop_last() =~= open);
            let closed = at::close_parameter(p);
            if items.len() == 0 {
                assert(closed.open.last() =~= seq![AtParameterModel::Value(seq![])]);
            } else {
                assert(closed.open.last() =~= meaning_all(items));
            }
            assert(closed.open.drop_last() =~= open);
        },
    }
}

/// The punctuation tokens differ from one another.
proof fn lemma_punctuation()
    ensures
        seq![40u8] != seq![44u8],
        seq![41u8] != seq![44u8],
        seq![41u8] != seq![40u8],
{
    assert(seq![40u8][0] != seq![44u8][0]);
    assert(seq![41u8][0] != seq![44u8][0]);
    assert(seq![41u8][0] != seq![40u8][0]);
}

/// The token of a value is read as the value.
proof fn lemma_value_read(
    open: Seq<Seq<AtParameterModel>>,
    token: TokenModel,
    rest: Seq<TokenModel>,
)
    requires
        !token.quoted && token.value.len() == 1 ==> is_ordinary(token.value[0]),
    ensures
        at::parameters_from(ready(open), at::with_token(seq![], token) + rest)
            == at::parameters_from(
            ParserModel { open, current: AtParameterModel::Value(token.value) },
            rest,
        ),
{
    let tokens = at::with_token(seq![], token) + rest;
    if token.value.len() == 0 {
        assert(tokens =~= rest);
        assert(token.value =~= seq![]);
    } else {
        assert(tokens[0] == token);
        assert(tokens.skip(1) =~= rest);
        assert(seq![40u8][0] == 40 && seq![41u8][0] == 41 && seq![44u8][0] == 44);
        assert(seq![40u8].len() == 1 && seq![41u8].len() == 1 && seq![44u8].len() == 1);
    }
}

/// A parser with parameters read and the last of them not closed.
spec fn pending(open: Seq<Seq<AtParameterModel>>, items: Seq<Written>) -> ParserModel {
    if items.len() == 0 {
        ready(open)
    } else {
        ParserModel {
            open: open.drop_last().push(open.last() + meaning_all(items.drop_last())),
            current: items.last().meaning(),
        }
    }
}

/// The tokens of parameters are read as the parameters.
proof fn lemma_all_parameters_read(
    open: Seq<Seq<AtParameterModel>>,
    items: Seq<Written>,
    rest: Seq<TokenModel>,
)
    requires
        all_writable(items),
        open.len() > 0,
    ensures
        at::parameters_from(ready(open), tokens_all(items) + rest) == at::parameters_from(
            pending(open, items),
            rest,
        ),
    decreases items, 1nat,
{
    if items.len() == 0 {
        assert(tokens_all(items) + rest =~= rest);
    } else if items.len() == 1 {
        lemma_parameter_read(open, items.last(), rest);
        assert(items.drop_last() =~= seq![]);
        assert(open.last() + meaning_all(items.drop_last()) =~= open.last());
        assert(open.drop_last().push(open.last()) =~= open);
    } else {
        let last = items.last();
        let before = items.drop_last();
        let next = seq![at::bare(seq![44u8])] + (last.tokens() + rest);
        assert(tokens_all(items) + rest =~= tokens_all(before) + next);
        assert(next[0] == at::bare(seq![44u8]));
        assert(next.skip(1) =~= last.tokens() + rest);
        lemma_all_parameters_read(open, before, next);
        let p = pending(open, before);
        let q = at::close_parameter(p);
        assert(q.open =~= open.drop_last().push(open.last() + meaning_all(before)));
        assert(q == ready(q.open));
        lemma_parameter_read(q.open, last, rest);
    }
}

/// Parameters that are written, bare, in double quotes or in parentheses, and
/// separated by commas, are read as what was meant.
pub proof fn law_written_parameters_are_read(items: Seq<Written>)
    requires
        items.len() > 0,
        all_writable(items),
    ensures
        at::parameters_of(wire_all(items)) == Ok::<Seq<AtParameterModel>, Seq<char>>(
            meaning_all(items),
        ),
{
    let start = seq![];
    assert(wire_all(items) + seq![] =~= wire_all(items));
    lemma_all_tokens_read(start, items, seq![]);
    let tokens = tokens_all(items);
    assert(start + tokens =~= tokens);
    assert(at::with_token(tokens, at::bare(seq![])) == tokens);
    let open: Seq<Seq<AtParameterModel>> = seq![seq![]];
    assert(tokens + seq![] =~= tokens);
    lemma_all_parameters_read(open, items, seq![]);
    let p = pending(open, items);
    assert(at::close_parameter(p).open.last() =~= meaning_all(items));
}

} // verus!
