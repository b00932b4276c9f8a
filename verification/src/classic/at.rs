//! AT command lines, as the Hands-Free profile uses them.
//!
//! [`tokenize_parameters`] and [`parse_parameters`] split a comma and
//! parenthesis separated parameter list into a tree of [`AtParameter`] values,
//! honouring double-quoted strings (spaces inside quotes are preserved,
//! elsewhere ignored). [`AtCommand`] and [`AtResponse`] build on that to parse
//! a full line: a basic `ATxxx` command, an extended `AT+XXX=...` set, read or
//! test form, or an unsolicited or status `+XXX: ...` response.

pub mod error_laws;
pub mod laws;

use vstd::prelude::*;
use vstd::utf8;
use crate::bytes;
use crate::models;
use crate::text;

verus! {

/// Why an AT command or response line could not be tokenized or parsed.
#[derive(Debug, Clone, PartialEq, Eq)]
pub struct AtParsingError(pub String);

impl View for AtParsingError {
    type V = Seq<char>;

    open spec fn view(&self) -> Seq<char> {
        self.0@
    }
}

impl AtParsingError {
    fn new(message: &str) -> (r: Self)
        ensures
            r@ == message@,
    {
        AtParsingError(text::owned(message))
    }

    /// The error as a sentence.
    pub fn to_text(&self) -> (r: String)
        ensures
            r@ == "AT parsing error: "@ + self@,
    {
        let mut r = text::owned("AT parsing error: ");
        r.append(self.0.as_str());
        r
    }
}

// ---------------------------------------------------------------------------
// Tokens
// ---------------------------------------------------------------------------

/// A token, and whether it stood in double quotes.
struct Token {
    quoted: bool,
    value: Vec<u8>,
}

/// The model of a token.
#[verifier::ext_equal]
pub struct TokenModel {
    /// Whether the token is a quoted string. A comma or parenthesis is
    /// punctuation only where it is not.
    pub quoted: bool,
    /// The bytes of the token, without its quotes.
    pub value: Seq<u8>,
}

impl View for Token {
    type V = TokenModel;

    closed spec fn view(&self) -> TokenModel {
        TokenModel { quoted: self.quoted, value: self.value@ }
    }
}

/// A token that is not in quotes.
pub open spec fn bare(value: Seq<u8>) -> TokenModel {
    TokenModel { quoted: false, value }
}

/// A token in quotes.
pub open spec fn in_quotation(value: Seq<u8>) -> TokenModel {
    TokenModel { quoted: true, value }
}

/// A tokenizer part of the way through its input.
#[verifier::ext_equal]
pub struct TokenizerModel {
    /// The tokens that are complete; none of them is empty.
    pub tokens: Seq<TokenModel>,
    /// The token being read, with its opening quote where it has one.
    pub token: Seq<u8>,
    /// Whether the token being read is a quoted string.
    pub in_quotes: bool,
}

/// A token list with one more token, unless that token is empty.
pub open spec fn with_token(tokens: Seq<TokenModel>, token: TokenModel) -> Seq<TokenModel> {
    if token.value.len() == 0 {
        tokens
    } else {
        tokens.push(token)
    }
}

/// What a tokenizer becomes when it reads one byte, or why it fails.
pub open spec fn token_step(t: TokenizerModel, b: u8) -> Result<TokenizerModel, Seq<char>> {
    if t.in_quotes {
        if b == 34 {
            // The closing quote: the token is what stands between the quotes.
            Ok(
                TokenizerModel {
                    tokens: with_token(t.tokens, in_quotation(t.token.skip(1))),
                    token: seq![],
                    in_quotes: false,
                },
            )
        } else {
            Ok(TokenizerModel { token: t.token.push(b), ..t })
        }
    } else if b == 32 {
        Ok(t)
    } else if b == 44 || b == 41 {
        // A comma or closing parenthesis ends a token and is one itself.
        Ok(
            TokenizerModel {
                tokens: with_token(t.tokens, bare(t.token)).push(bare(seq![b])),
                token: seq![],
                in_quotes: false,
            },
        )
    } else if b == 40 {
        if t.token.len() != 0 {
            Err("open_paren following regular character"@)
        } else {
            Ok(TokenizerModel { tokens: t.tokens.push(bare(seq![b])), ..t })
        }
    } else if b == 34 {
        if t.token.len() != 0 {
            Err("quote following regular character"@)
        } else {
            Ok(TokenizerModel { token: seq![b], in_quotes: true, ..t })
        }
    } else {
        Ok(TokenizerModel { token: t.token.push(b), ..t })
    }
}

/// What is left to do for a tokenizer with `rest` still to read.
pub open spec fn tokens_from(t: TokenizerModel, rest: Seq<u8>) -> Result<
    Seq<TokenModel>,
    Seq<char>,
>
    decreases rest.len(),
{
    if rest.len() == 0 {
        Ok(with_token(t.tokens, bare(t.token)))
    } else {
        match token_step(t, rest[0]) {
            Ok(next) => tokens_from(next, rest.skip(1)),
            Err(why) => Err(why),
        }
    }
}

/// The tokens of a parameter list, each with whether it stood in quotes.
pub open spec fn marked_tokens_of(buffer: Seq<u8>) -> Result<Seq<TokenModel>, Seq<char>> {
    tokens_from(TokenizerModel { tokens: seq![], token: seq![], in_quotes: false }, buffer)
}

/// The tokens of a parameter list.
pub open spec fn tokens_of(buffer: Seq<u8>) -> Result<Seq<Seq<u8>>, Seq<char>> {
    match marked_tokens_of(buffer) {
        Ok(tokens) => Ok(tokens.map_values(|t: TokenModel| t.value)),
        Err(why) => Err(why),
    }
}

/// The models of both sides of a result.
pub open spec fn result_views<T: View>(r: Result<Vec<T>, AtParsingError>) -> Result<
    Seq<T::V>,
    Seq<char>,
> {
    match r {
        Ok(items) => Ok(models::seq_views(items@)),
        Err(why) => Err(why@),
    }
}

/// Splits `buffer` into tokens, and says of each whether it stood in quotes.
fn read_tokens(buffer: &[u8]) -> (r: Result<Vec<Token>, AtParsingError>)
    ensures
        result_views(r) == marked_tokens_of(buffer@),
{
    broadcast use models::lemma_seq_views_push;

    let mut tokens: Vec<Token> = Vec::new();
    let mut in_quotes = false;
    let mut token: Vec<u8> = Vec::new();
    let ghost mut t = TokenizerModel { tokens: seq![], token: seq![], in_quotes: false };
    assert(models::seq_views(tokens@) =~= t.tokens);
    assert(token@ =~= t.token);
    assert(buffer@.skip(0) =~= buffer@);
    let mut i: usize = 0;
    while i < buffer.len()
        invariant
            i <= buffer@.len(),
            t == (TokenizerModel {
                tokens: models::seq_views(tokens@),
                token: token@,
                in_quotes,
            }),
            in_quotes ==> token@.len() > 0,
            tokens_from(t, buffer@.skip(i as int)) == marked_tokens_of(buffer@),
        decreases buffer@.len() - i,
    {
        let b: u8 = buffer[i];
        let ghost before = t;
        assert(buffer@.skip(i as int)[0] == b);
        assert(buffer@.skip(i as int).skip(1) =~= buffer@.skip(i + 1));
        if in_quotes {
            if b == 34 {
                let inner = bytes::copy_range(&token, 1, token.len());
                assert(inner@ =~= token@.skip(1));
                if inner.len() > 0 {
                    tokens.push(Token { quoted: true, value: inner });
                }
                token = Vec::new();
                in_quotes = false;
            } else {
                token.push(b);
            }
        } else if b == 32 {
        } else if b == 44 || b == 41 {
            if token.len() > 0 {
                tokens.push(Token { quoted: false, value: token });
            }
            token = Vec::new();
            let single: Vec<u8> = vec![b];
            assert(single@ =~= seq![b]);
            tokens.push(Token { quoted: false, value: single });
        } else if b == 40 {
            if token.len() != 0 {
                return Err(AtParsingError::new("open_paren following regular character"));
            }
            let single: Vec<u8> = vec![b];
            assert(single@ =~= seq![b]);
            tokens.push(Token { quoted: false, value: single });
        } else if b == 34 {
            if token.len() != 0 {
                return Err(AtParsingError::new("quote following regular character"));
            }
            in_quotes = true;
            token.push(b);
            assert(token@ =~= seq![b]);
        } else {
            token.push(b);
        }
        proof {
            t = TokenizerModel { tokens: models::seq_views(tokens@), token: token@, in_quotes };
            assert(t.token.len() == 0 ==> t.token =~= seq![]);
            assert(token_step(before, b) == Ok::<TokenizerModel, Seq<char>>(t));
        }
        i = i + 1;
    }
    if token.len() > 0 {
        tokens.push(Token { quoted: false, value: token });
    }
    Ok(tokens)
}

/// Splits `buffer` into tokens: bare runs of ordinary characters, `,`, `(` and
/// `)` as tokens of their own, and quoted strings without their quotes. Spaces
/// are dropped except inside quotes, and so are empty tokens.
pub fn tokenize_parameters(buffer: &[u8]) -> (r: Result<Vec<Vec<u8>>, AtParsingError>)
    ensures
        result_views(r) == tokens_of(buffer@),
{
    let tokens = match read_tokens(buffer) {
        Ok(tokens) => tokens,
        Err(why) => {
            return Err(why);
        },
    };
    let mut values: Vec<Vec<u8>> = Vec::new();
    let mut i: usize = 0;
    while i < tokens.len()
        invariant
            i <= tokens@.len(),
            values@.len() == i,
            forall|j: int| 0 <= j < i ==> (#[trigger] values@[j])@ == tokens@[j]@.value,
        decreases tokens@.len() - i,
    {
        values.push(bytes::copy(&tokens[i].value));
        i = i + 1;
    }
    assert(models::seq_views(values@) =~= models::seq_views(tokens@).map_values(
        |t: TokenModel| t.value,
    ));
    Ok(values)
}

// ---------------------------------------------------------------------------
// Parameters
// ---------------------------------------------------------------------------

/// A parsed AT parameter: either a plain value or a parenthesized list of
/// parameters (used by test-form responses like `+CIND: ("call",(0-1))`).
#[derive(Debug, PartialEq, Eq)]
pub enum AtParameter {
    /// A single parameter value, kept as raw bytes.
    Value(Vec<u8>),
    /// A parenthesized sub-list of parameters.
    List(Vec<AtParameter>),
}

/// The model of an [`AtParameter`].
#[verifier::ext_equal]
pub enum AtParameterModel {
    Value(Seq<u8>),
    List(Seq<AtParameterModel>),
}

impl AtParameter {
    /// The model of this parameter.
    pub open spec fn model(self) -> AtParameterModel
        decreases self,
    {
        match self {
            AtParameter::Value(value) => AtParameterModel::Value(value@),
            AtParameter::List(items) => AtParameterModel::List(
                Seq::new(
                    items@.len(),
                    |i: int|
                        if 0 <= i < items@.len() {
                            items@[i].model()
                        } else {
                            AtParameterModel::Value(seq![])
                        },
                ),
            ),
        }
    }
}

impl View for AtParameter {
    type V = AtParameterModel;

    open spec fn view(&self) -> AtParameterModel {
        self.model()
    }
}

/// The model of a list parameter is the list of the models.
pub proof fn lemma_list_model(items: Vec<AtParameter>)
    ensures
        AtParameter::List(items)@ == AtParameterModel::List(models::seq_views(items@)),
{
    assert(AtParameter::List(items)@->List_0 =~= models::seq_views(items@));
}

impl AtParameterModel {
    /// The bytes of a plain value.
    pub open spec fn value(self) -> Option<Seq<u8>> {
        match self {
            AtParameterModel::Value(value) => Some(value),
            AtParameterModel::List(_) => None,
        }
    }

    /// The text of a plain value, where it is valid UTF-8.
    pub open spec fn text(self) -> Option<Seq<char>> {
        match self {
            AtParameterModel::Value(value) => if utf8::valid_utf8(value) {
                Some(utf8::decode_utf8(value))
            } else {
                None
            },
            AtParameterModel::List(_) => None,
        }
    }

    /// The number that a plain value denotes.
    pub open spec fn number(self) -> Option<u32> {
        match self {
            AtParameterModel::Value(value) => text::u32_of(value),
            AtParameterModel::List(_) => None,
        }
    }
}

impl AtParameter {
    fn duplicate(&self) -> (r: AtParameter)
        ensures
            r@ == self@,
        decreases self,
    {
        match self {
            AtParameter::Value(value) => AtParameter::Value(bytes::copy(value)),
            AtParameter::List(items) => {
                let mut out: Vec<AtParameter> = Vec::new();
                let mut i: usize = 0;
                while i < items.len()
                    invariant
                        i <= items@.len(),
                        out@.len() == i,
                        forall|j: int| 0 <= j < i ==> out@[j]@ == (#[trigger] items@[j])@,
                    decreases items@.len() - i,
                {
                    proof {
                        assert(decreases_to!(self => items));
                        assert(decreases_to!(*items => items@));
                        assert(decreases_to!(items@ => items@[i as int]));
                    }
                    out.push(items[i].duplicate());
                    i = i + 1;
                }
                proof {
                    lemma_list_model(out);
                    lemma_list_model(*items);
                    assert(models::seq_views(out@) =~= models::seq_views(items@));
                }
                AtParameter::List(out)
            },
        }
    }

    /// The raw bytes of a plain value, or `None` for a list.
    pub fn as_value(&self) -> (r: Option<&[u8]>)
        ensures
            models::opt_view(r) == self@.value(),
    {
        match self {
            AtParameter::Value(value) => Some(value.as_slice()),
            AtParameter::List(_) => None,
        }
    }

    /// The value as text, or `None` for a list or invalid UTF-8.
    pub fn as_str(&self) -> (r: Option<&str>)
        ensures
            models::opt_view(r) == self@.text(),
    {
        match self {
            AtParameter::Value(value) => text::decode_strict(value.as_slice()),
            AtParameter::List(_) => None,
        }
    }

    /// The elements of a list, or `None` for a plain value.
    pub fn as_list(&self) -> (r: Option<&[AtParameter]>)
        ensures
            match r {
                Some(items) => self@ == AtParameterModel::List(models::seq_views(items@)),
                None => self@ is Value,
            },
    {
        match self {
            AtParameter::List(items) => {
                proof {
                    lemma_list_model(*items);
                }
                Some(items.as_slice())
            },
            AtParameter::Value(_) => None,
        }
    }

    /// The value as a number. A present but empty value (as in
    /// `AT+CMER=3,,,1`) is not a number.
    pub fn as_u32(&self) -> (r: Option<u32>)
        ensures
            r == self@.number(),
    {
        match self {
            AtParameter::Value(value) => text::parse_u32(value.as_slice()),
            AtParameter::List(_) => None,
        }
    }
}

impl Clone for AtParameter {
    fn clone(&self) -> (r: Self)
        ensures
            r@ == self@,
    {
        self.duplicate()
    }
}

/// A parameter parser part of the way through its tokens.
#[verifier::ext_equal]
pub struct ParserModel {
    /// The lists that are open, outermost first.
    pub open: Seq<Seq<AtParameterModel>>,
    /// The parameter being read.
    pub current: AtParameterModel,
}

/// A parser with the current parameter appended to the innermost open list.
pub open spec fn close_parameter(p: ParserModel) -> ParserModel {
    ParserModel {
        open: p.open.drop_last().push(p.open.last().push(p.current)),
        current: AtParameterModel::Value(seq![]),
    }
}

/// What a parser becomes when it reads one token, or why it fails.
pub open spec fn parser_step(p: ParserModel, token: TokenModel) -> Result<ParserModel, Seq<char>> {
    if token == bare(seq![44u8]) {
        Ok(close_parameter(p))
    } else if token == bare(seq![40u8]) {
        Ok(ParserModel { open: p.open.push(seq![]), ..p })
    } else if token == bare(seq![41u8]) {
        if p.open.len() < 2 {
            Err("close_paren without matching open_paren"@)
        } else {
            let closed = close_parameter(p).open;
            Ok(
                ParserModel {
                    open: closed.drop_last(),
                    current: AtParameterModel::List(closed.last()),
                },
            )
        }
    } else {
        Ok(ParserModel { current: AtParameterModel::Value(token.value), ..p })
    }
}

/// What is left to do for a parser with `rest` still to read.
pub open spec fn parameters_from(p: ParserModel, rest: Seq<TokenModel>) -> Result<
    Seq<AtParameterModel>,
    Seq<char>,
>
    decreases rest.len(),
{
    if rest.len() == 0 {
        if p.open.len() > 1 {
            Err("missing close_paren"@)
        } else {
            Ok(close_parameter(p).open.last())
        }
    } else {
        match parser_step(p, rest[0]) {
            Ok(next) => parameters_from(next, rest.skip(1)),
            Err(why) => Err(why),
        }
    }
}

/// The parameters that a parameter list holds.
pub open spec fn parameters_of(buffer: Seq<u8>) -> Result<Seq<AtParameterModel>, Seq<char>> {
    match marked_tokens_of(buffer) {
        Ok(tokens) => parameters_from(
            ParserModel { open: seq![seq![]], current: AtParameterModel::Value(seq![]) },
            tokens,
        ),
        Err(why) => Err(why),
    }
}

/// The models of the lists on the parser's stack.
spec fn stack_views(stack: Seq<Vec<AtParameter>>) -> Seq<Seq<AtParameterModel>> {
    Seq::new(stack.len(), |i: int| models::seq_views(stack[i]@))
}

/// Appends a parameter to the innermost open list.
fn append_to_top(stack: &mut Vec<Vec<AtParameter>>, value: AtParameter)
    requires
        old(stack)@.len() > 0,
    ensures
        final(stack)@.len() == old(stack)@.len(),
        stack_views(final(stack)@) == stack_views(old(stack)@).drop_last().push(
            stack_views(old(stack)@).last().push(value@),
        ),
{
    let ghost before = stack@;
    match stack.pop() {
        Some(mut top) => {
            let ghost inner = top@;
            top.push(value);
            proof {
                models::lemma_seq_views_push(inner, value);
            }
            stack.push(top);
            assert(stack_views(stack@) =~= stack_views(before).drop_last().push(
                stack_views(before).last().push(value@),
            ));
        },
        None => {},
    }
}

/// An empty plain value.
fn empty_parameter() -> (r: AtParameter)
    ensures
        r@ == AtParameterModel::Value(seq![]),
{
    let r = AtParameter::Value(Vec::new());
    assert(r@->Value_0 =~= seq![]);
    r
}

/// Parses the comma and parenthesis separated parameter list that follows an
/// AT command or response code. A comma or parenthesis in quotes is text.
pub fn parse_parameters(buffer: &[u8]) -> (r: Result<Vec<AtParameter>, AtParsingError>)
    ensures
        result_views(r) == parameters_of(buffer@),
{
    let tokens = match read_tokens(buffer) {
        Ok(tokens) => tokens,
        Err(why) => {
            return Err(why);
        },
    };
    let ghost all = models::seq_views(tokens@);
    let mut stack: Vec<Vec<AtParameter>> = Vec::new();
    stack.push(Vec::new());
    let mut current = empty_parameter();
    proof {
        assert(stack_views(stack@)[0] =~= seq![]);
        assert(stack_views(stack@) =~= seq![seq![]]);
        assert(all.skip(0) =~= all);
    }
    let mut i: usize = 0;
    while i < tokens.len()
        invariant
            i <= tokens@.len(),
            all == models::seq_views(tokens@),
            stack@.len() > 0,
            parameters_from(
                ParserModel { open: stack_views(stack@), current: current@ },
                all.skip(i as int),
            ) == parameters_of(buffer@),
        decreases tokens@.len() - i,
    {
        let ghost before = ParserModel { open: stack_views(stack@), current: current@ };
        let token = &tokens[i];
        assert(all.skip(i as int)[0] == token@);
        assert(all.skip(i as int).skip(1) =~= all.skip(i + 1));
        let single: u8 = if !token.quoted && token.value.len() == 1 {
            token.value[0]
        } else {
            0
        };
        proof {
            if token@.value.len() == 1 {
                assert(token@.value =~= seq![token@.value[0]]);
            }
        }
        if single == 44 {
            append_to_top(&mut stack, current);
            current = empty_parameter();
        } else if single == 40 {
            let ghost lists = stack@;
            stack.push(Vec::new());
            assert(stack_views(stack@).last() =~= seq![]);
            assert(stack_views(stack@) =~= stack_views(lists).push(seq![]));
        } else if single == 41 {
            if stack.len() < 2 {
                return Err(AtParsingError::new("close_paren without matching open_paren"));
            }
            append_to_top(&mut stack, current);
            let ghost lists = stack@;
            current = empty_parameter();
            if let Some(list) = stack.pop() {
                proof {
                    lemma_list_model(list);
                }
                assert(stack_views(stack@) =~= stack_views(lists).drop_last());
                current = AtParameter::List(list);
            }
        } else {
            current = AtParameter::Value(bytes::copy(&token.value));
        }
        assert(parser_step(before, token@) == Ok::<ParserModel, Seq<char>>(
            ParserModel { open: stack_views(stack@), current: current@ },
        ));
        i = i + 1;
    }
    if stack.len() > 1 {
        return Err(AtParsingError::new("missing close_paren"));
    }
    append_to_top(&mut stack, current);
    match stack.pop() {
        Some(parameters) => Ok(parameters),
        None => Ok(Vec::new()),
    }
}

// ---------------------------------------------------------------------------
// Command lines
// ---------------------------------------------------------------------------

/// Form of an extended `AT+XXX` command line.
#[derive(Debug, Clone, Copy, PartialEq, Eq, Structural)]
pub enum AtSubCode {
    /// `AT+XXX` or a basic command (`ATA`, `ATD...`): no `=` or `?` suffix.
    Plain,
    /// `AT+XXX=...`: set or execute form.
    Write,
    /// `AT+XXX=?`: test form (query supported values).
    Test,
    /// `AT+XXX?`: read form (query current value).
    Read,
}

/// A parsed AT command line, sent from the Hands-Free to the Audio Gateway.
#[derive(Debug, Clone, PartialEq, Eq)]
pub struct AtCommand {
    /// Command mnemonic without the `AT+` prefix (`BRSF`, `CIND`, or `A` and
    /// `D` for the basic `ATA` and `ATD` commands).
    pub code: String,
    /// Which extended form the line used.
    pub sub_code: AtSubCode,
    /// Parameter list that follows the command code.
    pub parameters: Vec<AtParameter>,
}

/// The model of an [`AtCommand`].
#[verifier::ext_equal]
pub struct AtCommandModel {
    pub code: Seq<char>,
    pub sub_code: AtSubCode,
    pub parameters: Seq<AtParameterModel>,
}

impl View for AtCommand {
    type V = AtCommandModel;

    open spec fn view(&self) -> AtCommandModel {
        AtCommandModel {
            code: self.code@,
            sub_code: self.sub_code,
            parameters: models::seq_views(self.parameters@),
        }
    }
}

/// Whether a byte string starts with `prefix`.
pub open spec fn starts_with(s: Seq<u8>, prefix: Seq<u8>) -> bool {
    prefix.len() <= s.len() && s.take(prefix.len() as int) == prefix
}

/// How many upper-case letters a byte string starts with.
pub open spec fn upper_case_run(s: Seq<u8>) -> nat
    decreases s.len(),
{
    if s.len() == 0 || s[0] < 65 || s[0] > 90 {
        0
    } else {
        1 + upper_case_run(s.skip(1))
    }
}

/// The parameters in what follows a command code: none where nothing follows.
pub open spec fn optional_parameters(s: Seq<u8>) -> Result<Seq<AtParameterModel>, Seq<char>> {
    if s.len() == 0 {
        Ok(seq![])
    } else {
        parameters_of(s)
    }
}

/// The form of an extended command and where its parameters start, from what
/// follows its code.
pub open spec fn form_of(after_code: Seq<u8>) -> (AtSubCode, int) {
    if starts_with(after_code, seq![61u8, 63u8]) {
        (AtSubCode::Test, 2)
    } else if starts_with(after_code, seq![61u8]) {
        (AtSubCode::Write, 1)
    } else if starts_with(after_code, seq![63u8]) {
        (AtSubCode::Read, 1)
    } else {
        (AtSubCode::Plain, 0)
    }
}

/// The command that a line holds. `ATA` and `ATD` are basic commands, the
/// latter with an unparsed dial string; any other line has to be `AT+`, a code
/// of upper-case letters, an optional `=?`, `=` or `?`, and parameters.
pub open spec fn command_of(line: Seq<u8>) -> Result<AtCommandModel, Seq<char>> {
    if starts_with(line, seq![65u8, 84u8, 43u8]) {
        let rest = line.skip(3);
        let n = upper_case_run(rest) as int;
        if n == 0 {
            Err("invalid command"@)
        } else {
            let (sub_code, at) = form_of(rest.skip(n));
            match optional_parameters(rest.skip(n).skip(at)) {
                Ok(parameters) => Ok(
                    AtCommandModel {
                        code: text::lossy_text(rest.take(n)),
                        sub_code,
                        parameters,
                    },
                ),
                Err(why) => Err(why),
            }
        }
    } else if starts_with(line, seq![65u8, 84u8, 65u8]) {
        Ok(AtCommandModel { code: "A"@, sub_code: AtSubCode::Plain, parameters: seq![] })
    } else if starts_with(line, seq![65u8, 84u8, 68u8]) {
        Ok(
            AtCommandModel {
                code: "D"@,
                sub_code: AtSubCode::Plain,
                parameters: seq![AtParameterModel::Value(line.skip(3))],
            },
        )
    } else {
        Err("invalid command"@)
    }
}

/// The models of both sides of a result.
pub open spec fn outcome_view<T: View>(r: Result<T, AtParsingError>) -> Result<T::V, Seq<char>> {
    match r {
        Ok(value) => Ok(value@),
        Err(why) => Err(why@),
    }
}

/// Parses what follows a command code.
fn parse_optional_parameters(s: &[u8]) -> (r: Result<Vec<AtParameter>, AtParsingError>)
    ensures
        result_views(r) == optional_parameters(s@),
{
    if s.len() == 0 {
        let none: Vec<AtParameter> = Vec::new();
        assert(models::seq_views(none@) =~= seq![]);
        Ok(none)
    } else {
        parse_parameters(s)
    }
}

/// Whether a line starts with `AT` and the byte `third`.
fn starts_with_at(line: &[u8], third: u8) -> (r: bool)
    ensures
        r == starts_with(line@, seq![65u8, 84u8, third]),
{
    let r = line.len() >= 3 && line[0] == 65 && line[1] == 84 && line[2] == third;
    proof {
        if line@.len() >= 3 {
            let head = line@.take(3);
            assert(head[0] == line@[0] && head[1] == line@[1] && head[2] == line@[2]);
            if r {
                assert(head =~= seq![65u8, 84u8, third]);
            }
        }
    }
    r
}

/// Finds the form of an extended command.
fn parse_form(after_code: &[u8]) -> (r: (AtSubCode, usize))
    ensures
        r.0 == form_of(after_code@).0,
        r.1 == form_of(after_code@).1,
        r.1 <= after_code@.len(),
{
    proof {
        if after_code@.len() >= 1 {
            assert(after_code@.take(1)[0] == after_code@[0]);
            if after_code@[0] == 61 {
                assert(after_code@.take(1) =~= seq![61u8]);
            }
            if after_code@[0] == 63 {
                assert(after_code@.take(1) =~= seq![63u8]);
            }
        }
        if after_code@.len() >= 2 {
            assert(after_code@.take(2)[0] == after_code@[0]);
            assert(after_code@.take(2)[1] == after_code@[1]);
            if after_code@[0] == 61 && after_code@[1] == 63 {
                assert(after_code@.take(2) =~= seq![61u8, 63u8]);
            }
        }
    }
    if after_code.len() >= 2 && after_code[0] == 61 && after_code[1] == 63 {
        (AtSubCode::Test, 2)
    } else if after_code.len() >= 1 && after_code[0] == 61 {
        (AtSubCode::Write, 1)
    } else if after_code.len() >= 1 && after_code[0] == 63 {
        (AtSubCode::Read, 1)
    } else {
        (AtSubCode::Plain, 0)
    }
}

impl AtCommand {
    /// Parses one command line (without the trailing carriage return).
    pub fn parse_from(line: &[u8]) -> (r: Result<Self, AtParsingError>)
        ensures
            outcome_view(r) == command_of(line@),
    {
        if starts_with_at(line, 43) {
            let rest = bytes::range(line, 3, line.len());
            assert(rest@ =~= line@.skip(3));
            let mut n: usize = 0;
            assert(rest@.skip(0) =~= rest@);
            while n < rest.len() && rest[n] >= 65 && rest[n] <= 90
                invariant
                    n <= rest@.len(),
                    n + upper_case_run(rest@.skip(n as int)) == upper_case_run(rest@),
                decreases rest@.len() - n,
            {
                assert(rest@.skip(n as int)[0] == rest@[n as int]);
                assert(rest@.skip(n as int).skip(1) =~= rest@.skip(n + 1));
                n = n + 1;
            }
            proof {
                if n < rest@.len() {
                    assert(rest@.skip(n as int)[0] == rest@[n as int]);
                }
            }
            if n == 0 {
                return Err(AtParsingError::new("invalid command"));
            }
            let code_bytes = bytes::range(rest, 0, n);
            assert(code_bytes@ =~= rest@.take(n as int));
            let code = text::decode_lossy(code_bytes);
            let after_code = bytes::range(rest, n, rest.len());
            assert(after_code@ =~= rest@.skip(n as int));
            let (sub_code, at) = parse_form(after_code);
            let parameter_bytes = bytes::range(after_code, at, after_code.len());
            assert(parameter_bytes@ =~= after_code@.skip(at as int));
            match parse_optional_parameters(parameter_bytes) {
                Ok(parameters) => Ok(AtCommand { code, sub_code, parameters }),
                Err(why) => Err(why),
            }
        } else if starts_with_at(line, 65) {
            let parameters: Vec<AtParameter> = Vec::new();
            assert(models::seq_views(parameters@) =~= seq![]);
            Ok(AtCommand { code: text::owned("A"), sub_code: AtSubCode::Plain, parameters })
        } else if starts_with_at(line, 68) {
            let dial_string = bytes::copy_range(line, 3, line.len());
            assert(dial_string@ =~= line@.skip(3));
            let mut parameters: Vec<AtParameter> = Vec::new();
            parameters.push(AtParameter::Value(dial_string));
            assert(models::seq_views(parameters@) =~= seq![
                AtParameterModel::Value(line@.skip(3)),
            ]);
            Ok(AtCommand { code: text::owned("D"), sub_code: AtSubCode::Plain, parameters })
        } else {
            Err(AtParsingError::new("invalid command"))
        }
    }
}

// ---------------------------------------------------------------------------
// Response lines
// ---------------------------------------------------------------------------

/// A parsed AT response line, sent from the Audio Gateway to the Hands-Free:
/// an unsolicited or status code (`OK`, `RING`), or a `+XXX: ...` result code
/// with parameters.
#[derive(Debug, Clone, PartialEq, Eq)]
pub struct AtResponse {
    /// Response or result code (`+BRSF`, `OK`, `RING`).
    pub code: String,
    /// Parameter list that follows a `+XXX:` result code.
    pub parameters: Vec<AtParameter>,
}

/// The model of an [`AtResponse`].
#[verifier::ext_equal]
pub struct AtResponseModel {
    pub code: Seq<char>,
    pub parameters: Seq<AtParameterModel>,
}

impl View for AtResponse {
    type V = AtResponseModel;

    open spec fn view(&self) -> AtResponseModel {
        AtResponseModel {
            code: self.code@,
            parameters: models::seq_views(self.parameters@),
        }
    }
}

/// How many bytes stand before the first colon.
pub open spec fn colon_free_run(s: Seq<u8>) -> nat
    decreases s.len(),
{
    if s.len() == 0 || s[0] == 58 {
        0
    } else {
        1 + colon_free_run(s.skip(1))
    }
}

/// The bytes before the first colon are among the bytes.
pub proof fn lemma_colon_free_run(s: Seq<u8>)
    ensures
        colon_free_run(s) <= s.len(),
        colon_free_run(s) < s.len() ==> s[colon_free_run(s) as int] == 58,
    decreases s.len(),
{
    if s.len() > 0 && s[0] != 58 {
        lemma_colon_free_run(s.skip(1));
    }
}

/// The response that a line holds: the code up to the first colon, and the
/// parameters after it.
pub open spec fn response_of(line: Seq<u8>) -> Result<AtResponseModel, Seq<char>> {
    let n = colon_free_run(line) as int;
    let after = if n < line.len() {
        line.skip(n + 1)
    } else {
        seq![]
    };
    match optional_parameters(after) {
        Ok(parameters) => Ok(
            AtResponseModel { code: text::lossy_text(line.take(n)), parameters },
        ),
        Err(why) => Err(why),
    }
}

impl AtResponse {
    /// Parses one response line.
    pub fn parse_from(line: &[u8]) -> (r: Result<Self, AtParsingError>)
        ensures
            outcome_view(r) == response_of(line@),
    {
        let mut n: usize = 0;
        assert(line@.skip(0) =~= line@);
        while n < line.len() && line[n] != 58
            invariant
                n <= line@.len(),
                n + colon_free_run(line@.skip(n as int)) == colon_free_run(line@),
            decreases line@.len() - n,
        {
            assert(line@.skip(n as int)[0] == line@[n as int]);
            assert(line@.skip(n as int).skip(1) =~= line@.skip(n + 1));
            n = n + 1;
        }
        proof {
            if n < line@.len() {
                assert(line@.skip(n as int)[0] == line@[n as int]);
            }
        }
        let code_bytes = bytes::range(line, 0, n);
        assert(code_bytes@ =~= line@.take(n as int));
        let code = text::decode_lossy(code_bytes);
        let start: usize = if n < line.len() {
            n + 1
        } else {
            n
        };
        let after = bytes::range(line, start, line.len());
        assert(n < line@.len() ==> after@ =~= line@.skip(n + 1));
        assert(n == line@.len() ==> after@ =~= seq![]);
        match parse_optional_parameters(after) {
            Ok(parameters) => Ok(AtResponse { code, parameters }),
            Err(why) => Err(why),
        }
    }
}

} // verus!
