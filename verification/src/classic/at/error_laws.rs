//! Which parameter lists and lines are refused.

use vstd::prelude::*;
use crate::classic::at;
use crate::classic::at::laws;
use crate::classic::at::{AtCommandModel, AtParameterModel, AtSubCode, ParserModel, TokenModel};

verus! {

/// Whether parentheses match, with so many open before: each that closes has one
/// that opens before it, and none is left open. What stands in quotes does not
/// count.
pub open spec fn balanced(tokens: Seq<TokenModel>, open: int) -> bool
    decreases tokens.len(),
{
    if tokens.len() == 0 {
        open == 0
    } else {
        let first = tokens[0];
        let rest = tokens.skip(1);
        if !first.quoted && first.value == seq!['(' as u8] {
            balanced(rest, open + 1)
        } else if !first.quoted && first.value == seq![')' as u8] {
            open > 0 && balanced(rest, open - 1)
        } else {
            balanced(rest, open)
        }
    }
}

proof fn lemma_balanced(p: ParserModel, tokens: Seq<TokenModel>)
    requires
        p.open.len() > 0,
    ensures
        at::parameters_from(p, tokens) is Ok <==> balanced(tokens, p.open.len() - 1),
    decreases tokens.len(),
{
    if tokens.len() > 0 {
        let first = tokens[0];
        assert(seq![40u8][0] == 40 && seq![41u8][0] == 41 && seq![44u8][0] == 44);
        match at::parser_step(p, first) {
            Ok(next) => {
                lemma_balanced(next, tokens.skip(1));
            },
            Err(_) => {},
        }
    }
}

/// A parameter list that can be split into tokens is read exactly if its
/// parentheses match.
pub proof fn law_parentheses_have_to_match(buffer: Seq<u8>)
    requires
        at::marked_tokens_of(buffer) is Ok,
    ensures
        at::parameters_of(buffer) is Ok <==> balanced(at::marked_tokens_of(buffer)->Ok_0, 0),
{
    lemma_balanced(
        ParserModel { open: seq![seq![]], current: AtParameterModel::Value(seq![]) },
        at::marked_tokens_of(buffer)->Ok_0,
    );
}

/// An opening parenthesis or a quote right behind other characters of a value is
/// refused, whatever follows.
pub proof fn law_misplaced_openings(before: Seq<u8>, b: u8, after: Seq<u8>)
    requires
        b == '(' as u8 || b == '"' as u8,
        laws::after_reading(laws::between(seq![]), before) is Ok,
        !laws::after_reading(laws::between(seq![]), before)->Ok_0.in_quotes,
        laws::after_reading(laws::between(seq![]), before)->Ok_0.token.len() > 0,
    ensures
        at::tokens_of(before + seq![b] + after) is Err,
        at::parameters_of(before + seq![b] + after) is Err,
{
    let t = laws::between(seq![]);
    assert(before + seq![b] + after =~= before + (seq![b] + after));
    laws::lemma_reading_parts(t, before, seq![b] + after);
    assert((seq![b] + after)[0] == b);
}

/// A line that starts neither with `AT+` and a capital letter, nor with `ATA` or
/// `ATD`, is no command.
pub proof fn law_no_commands(line: Seq<u8>)
    ensures
        line.len() < 3 || line[0] != 'A' as u8 || line[1] != 'T' as u8 || (line[2] != '+' as u8
            && line[2] != 'A' as u8 && line[2] != 'D' as u8) ==> at::command_of(line) is Err,
        line.len() >= 3 && line[2] == '+' as u8 && (line.len() == 3 || line[3] < 65 || line[3]
            > 90) ==> at::command_of(line) is Err,
{
    if line.len() >= 3 {
        let head = line.take(3);
        assert(head[0] == line[0] && head[1] == line[1] && head[2] == line[2]);
        let plus = seq![65u8, 84u8, 43u8];
        let a = seq![65u8, 84u8, 65u8];
        let d = seq![65u8, 84u8, 68u8];
        assert(plus[0] == 65 && plus[1] == 84 && plus[2] == 43);
        assert(a[0] == 65 && a[1] == 84 && a[2] == 65);
        assert(d[0] == 65 && d[1] == 84 && d[2] == 68);
        if line.len() > 3 {
            assert(line.skip(3)[0] == line[3]);
        }
    }
}

/// A dialled number is not read as parameters: it is what follows, as it stands.
pub proof fn law_dial_string_is_kept(number: Seq<u8>)
    ensures
        at::command_of(seq![65u8, 84u8, 68u8] + number) == Ok::<AtCommandModel, Seq<char>>(
            (AtCommandModel {
                code: "D"@,
                sub_code: AtSubCode::Plain,
                parameters: seq![AtParameterModel::Value(number)],
            }),
        ),
{
    let line = seq![65u8, 84u8, 68u8] + number;
    assert(line.take(3) =~= seq![65u8, 84u8, 68u8]);
    assert(line.take(3)[2] == 68 && seq![65u8, 84u8, 43u8][2] == 43 && seq![65u8, 84u8, 65u8][2]
        == 65);
    assert(line.skip(3) =~= number);
}

} // verus!
