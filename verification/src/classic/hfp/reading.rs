//! What a line that one side writes is to the side that reads it.

use vstd::prelude::*;
use vstd::utf8;
use crate::classic::at;
use crate::classic::at::laws;
use crate::classic::at::laws::Written;
use crate::classic::at::{AtCommandModel, AtParameterModel, AtResponseModel, AtSubCode};
use crate::text;

verus! {

// ---------------------------------------------------------------------------
// Parameters
// ---------------------------------------------------------------------------

/// A number, as it is written.
pub open spec fn number_item(n: u32) -> Written {
    Written::Bare(utf8::encode_utf8(text::decimal(n as nat)))
}

/// A text in double quotes, as it is written.
pub open spec fn text_item(s: Seq<char>) -> Written {
    Written::Quoted(utf8::encode_utf8(s))
}

/// Whether a text can stand in double quotes: there is no double quote in it.
pub open spec fn quotable(s: Seq<char>) -> bool {
    forall|i: int| 0 <= i < s.len() ==> #[trigger] s[i] != '"'
}

/// The bytes of a character of ASCII.
pub proof fn lemma_char_byte(c: char)
    requires
        c as u32 <= 0x7F,
    ensures
        utf8::encode_utf8(seq![c]) == seq![c as u8],
{
    let one = seq![c];
    assert(utf8::is_ascii_chars(one)) by {
        assert('\0' <= one[0] <= '\u{7f}');
    }
    utf8::is_ascii_chars_encode_utf8(one);
    assert(utf8::encode_utf8(one) =~= seq![c as u8]);
}

/// A text has at least as many bytes as characters.
pub proof fn lemma_encode_len(s: Seq<char>)
    ensures
        utf8::encode_utf8(s).len() >= s.len(),
        s.len() == 0 ==> utf8::encode_utf8(s).len() == 0,
    decreases s.len(),
{
    if s.len() > 0 {
        lemma_encode_len(s.drop_first());
    }
}

/// A number can be written, and is read as the number.
pub proof fn lemma_number_item(n: u32)
    ensures
        number_item(n).writable(),
        number_item(n).wire() == utf8::encode_utf8(text::decimal(n as nat)),
        number_item(n).meaning().number() == Some(n),
        number_item(n).wire().len() > 0,
        text::is_digit(number_item(n).wire()[0]),
{
    text::laws::lemma_decimal_bytes(n as nat);
    text::laws::law_decimal_is_read(n);
    let s = utf8::encode_utf8(text::decimal(n as nat));
    assert forall|i: int| 0 <= i < s.len() implies laws::is_ordinary(#[trigger] s[i]) by {
        assert(text::is_digit(s[i]));
    }
    assert(text::is_digit(s[0]));
}

/// A text in double quotes can be written, and is read as the text.
pub proof fn lemma_text_item(s: Seq<char>)
    requires
        quotable(s),
    ensures
        text_item(s).writable(),
        text_item(s).wire() == utf8::encode_utf8(text::quoted(s)),
        text_item(s).meaning().text() == Some(s),
        text_item(s).meaning() == AtParameterModel::Value(utf8::encode_utf8(s)),
        text_item(s).wire()[0] == 34,
{
    let bytes = utf8::encode_utf8(s);
    assert('"' as u32 == 34);
    assert(34u8 as char == '"');
    text::laws::lemma_absent_byte(s, 34);
    reveal_strlit("\"");
    assert("\""@ =~= seq!['"']);
    lemma_char_byte('"');
    text::laws::lemma_encode_add("\""@ + s, "\""@);
    text::laws::lemma_encode_add("\""@, s);
    assert(text_item(s).wire() =~= utf8::encode_utf8(text::quoted(s)));
    text::lemma_text_round_trip(s);
}

/// The bytes of texts separated by commas are those of the parameters.
pub proof fn lemma_joined(parts: Seq<Seq<char>>, items: Seq<Written>)
    requires
        parts.len() == items.len(),
        forall|i: int|
            0 <= i < parts.len() ==> utf8::encode_utf8(#[trigger] parts[i]) == items[i].wire(),
    ensures
        utf8::encode_utf8(text::joined(parts)) == laws::wire_all(items),
    decreases parts.len(),
{
    if parts.len() == 0 {
        assert(text::joined(parts) =~= seq![]);
    } else if parts.len() == 1 {
        assert(items.last() == items[0]);
        assert(utf8::encode_utf8(parts[0]) == items[0].wire());
    } else {
        let before = parts.drop_last();
        assert forall|i: int| 0 <= i < before.len() implies utf8::encode_utf8(
            #[trigger] before[i],
        ) == items.drop_last()[i].wire() by {
            assert(utf8::encode_utf8(parts[i]) == items[i].wire());
        }
        lemma_joined(before, items.drop_last());
        reveal_strlit(",");
        assert(","@ =~= seq![',']);
        lemma_char_byte(',');
        text::laws::lemma_encode_add(text::joined(before) + ","@, parts.last());
        text::laws::lemma_encode_add(text::joined(before), ","@);
        let i = parts.len() - 1;
        assert(utf8::encode_utf8(parts[i]) == items[i].wire());
        assert(parts[i] == parts.last() && items[i] == items.last());
        assert(laws::wire_all(items) =~= utf8::encode_utf8(text::joined(parts)));
    }
}

/// Parameters can all be written if each can.
pub proof fn lemma_all_writable(items: Seq<Written>)
    requires
        forall|i: int| 0 <= i < items.len() ==> (#[trigger] items[i]).writable(),
    ensures
        laws::all_writable(items),
    decreases items.len(),
{
    if items.len() > 0 {
        assert(items.last() == items[items.len() - 1]);
        assert forall|i: int| 0 <= i < items.drop_last().len() implies (
        #[trigger] items.drop_last()[i]).writable() by {
            assert(items[i].writable());
        }
        lemma_all_writable(items.drop_last());
    }
}

/// The parameters that are meant, one by one.
pub proof fn lemma_meanings(items: Seq<Written>)
    ensures
        laws::meaning_all(items).len() == items.len(),
        forall|i: int|
            0 <= i < items.len() ==> #[trigger] laws::meaning_all(items)[i] == items[i].meaning(),
    decreases items.len(),
{
    if items.len() > 0 {
        lemma_meanings(items.drop_last());
        assert forall|i: int| 0 <= i < items.len() implies #[trigger] laws::meaning_all(items)[i]
            == items[i].meaning() by {
            if i < items.len() - 1 {
                assert(laws::meaning_all(items)[i] == laws::meaning_all(items.drop_last())[i]);
            }
        }
    }
}

// ---------------------------------------------------------------------------
// Lines
// ---------------------------------------------------------------------------

/// Whether texts are what parameters are written as.
pub open spec fn are_written(parts: Seq<Seq<char>>, items: Seq<Written>) -> bool {
    &&& parts.len() == items.len()
    &&& forall|i: int|
        0 <= i < parts.len() ==> utf8::encode_utf8(#[trigger] parts[i]) == items[i].wire()
            && items[i].writable()
}

/// Written parameters are read as what was meant, with a space before them or
/// without.
proof fn lemma_parameters_read(parts: Seq<Seq<char>>, items: Seq<Written>)
    requires
        are_written(parts, items),
        parts.len() > 0,
    ensures
        utf8::encode_utf8(text::joined(parts)) == laws::wire_all(items),
        at::parameters_of(laws::wire_all(items)) == Ok::<Seq<AtParameterModel>, Seq<char>>(
            laws::meaning_all(items),
        ),
        at::parameters_of(seq![32u8] + laws::wire_all(items)) == Ok::<
            Seq<AtParameterModel>,
            Seq<char>,
        >(laws::meaning_all(items)),
{
    lemma_joined(parts, items);
    assert forall|i: int| 0 <= i < items.len() implies (#[trigger] items[i]).writable() by {
        assert(utf8::encode_utf8(parts[i]) == items[i].wire());
    }
    lemma_all_writable(items);
    laws::law_written_parameters_are_read(items);
    let wire = laws::wire_all(items);
    laws::law_spaces_are_ignored(seq![], wire);
    assert(seq![] + seq![32u8] + wire =~= seq![32u8] + wire);
    assert(seq![] + wire =~= wire);
}

/// The first colon is where the code of a response ends.
proof fn lemma_colon(code: Seq<u8>, after: Seq<u8>)
    requires
        forall|i: int| 0 <= i < code.len() ==> #[trigger] code[i] != 58,
    ensures
        at::colon_free_run(code + seq![58u8] + after) == code.len(),
    decreases code.len(),
{
    let line = code + seq![58u8] + after;
    if code.len() == 0 {
        assert(line[0] == 58);
    } else {
        assert(line[0] == code[0]);
        assert forall|i: int| 0 <= i < code.skip(1).len() implies #[trigger] code.skip(1)[i]
            != 58 by {
            assert(code[i + 1] != 58);
        }
        assert(line.skip(1) =~= code.skip(1) + seq![58u8] + after);
        lemma_colon(code.skip(1), after);
    }
}

/// A response with parameters is read as it was meant.
pub proof fn lemma_response_read(code: Seq<char>, parts: Seq<Seq<char>>, items: Seq<Written>)
    requires
        forall|i: int| 0 <= i < code.len() ==> #[trigger] code[i] != ':',
        are_written(parts, items),
        parts.len() > 0,
    ensures
        at::response_of(utf8::encode_utf8(code + ": "@ + text::joined(parts))) == Ok::<
            AtResponseModel,
            Seq<char>,
        >(AtResponseModel { code, parameters: laws::meaning_all(items) }),
{
    lemma_parameters_read(parts, items);
    let head = utf8::encode_utf8(code);
    let wire = laws::wire_all(items);
    reveal_strlit(": ");
    assert(": "@ =~= seq![':'] + seq![' ']);
    lemma_char_byte(':');
    lemma_char_byte(' ');
    text::laws::lemma_encode_add(seq![':'], seq![' ']);
    text::laws::lemma_encode_add(code + ": "@, text::joined(parts));
    text::laws::lemma_encode_add(code, ": "@);
    let line = utf8::encode_utf8(code + ": "@ + text::joined(parts));
    let after = seq![32u8] + wire;
    assert(line =~= head + seq![58u8] + after);
    assert(58u8 as char == ':');
    text::laws::lemma_absent_byte(code, 58);
    lemma_colon(head, after);
    assert(line.take(head.len() as int) =~= head);
    assert(line.skip(head.len() as int + 1) =~= after);
    text::lemma_text_round_trip(code);
}

/// A response without parameters is read as its code.
pub proof fn lemma_bare_response_read(code: Seq<char>)
    requires
        forall|i: int| 0 <= i < code.len() ==> #[trigger] code[i] != ':',
    ensures
        at::response_of(utf8::encode_utf8(code)) == Ok::<AtResponseModel, Seq<char>>(
            AtResponseModel { code, parameters: seq![] },
        ),
{
    let line = utf8::encode_utf8(code);
    assert(58u8 as char == ':');
    text::laws::lemma_absent_byte(code, 58);
    lemma_no_colon(line);
    assert(line.take(line.len() as int) =~= line);
    text::lemma_text_round_trip(code);
}

proof fn lemma_no_colon(s: Seq<u8>)
    requires
        forall|i: int| 0 <= i < s.len() ==> #[trigger] s[i] != 58,
    ensures
        at::colon_free_run(s) == s.len(),
    decreases s.len(),
{
    if s.len() > 0 {
        assert(s[0] != 58);
        assert forall|i: int| 0 <= i < s.skip(1).len() implies #[trigger] s.skip(1)[i] != 58 by {
            assert(s[i + 1] != 58);
        }
        lemma_no_colon(s.skip(1));
    }
}

/// Whether a text is made of upper-case letters, at least one.
pub open spec fn is_mnemonic(code: Seq<char>) -> bool {
    &&& code.len() > 0
    &&& forall|i: int| 0 <= i < code.len() ==> 'A' <= #[trigger] code[i] <= 'Z'
}

/// A mnemonic is the run of upper-case letters at the start of a line.
proof fn lemma_upper_case(code: Seq<u8>, after: Seq<u8>)
    requires
        forall|i: int| 0 <= i < code.len() ==> 65 <= #[trigger] code[i] <= 90,
        after.len() == 0 || after[0] < 65 || after[0] > 90,
    ensures
        at::upper_case_run(code + after) == code.len(),
    decreases code.len(),
{
    if code.len() == 0 {
        assert(code + after =~= after);
    } else {
        assert((code + after)[0] == code[0]);
        assert forall|i: int| 0 <= i < code.skip(1).len() implies 65 <= #[trigger] code.skip(1)[i]
            <= 90 by {
            assert(65 <= code[i + 1] <= 90);
        }
        assert((code + after).skip(1) =~= code.skip(1) + after);
        lemma_upper_case(code.skip(1), after);
    }
}

/// The command in a line of a mnemonic and what follows it.
proof fn lemma_extended_command(code: Seq<char>, after: Seq<u8>)
    requires
        is_mnemonic(code),
        after.len() == 0 || after[0] < 65 || after[0] > 90,
    ensures
        ({
            let line = utf8::encode_utf8("AT+"@ + code) + after;
            let (sub_code, start) = at::form_of(after);
            at::command_of(line) == (match at::optional_parameters(after.skip(start)) {
                Ok(parameters) => Ok::<AtCommandModel, Seq<char>>(
                    AtCommandModel { code, sub_code, parameters },
                ),
                Err(why) => Err(why),
            })
        }),
{
    reveal_strlit("AT+");
    let head = "AT+"@;
    assert(utf8::is_ascii_chars(head));
    utf8::is_ascii_chars_encode_utf8(head);
    assert(utf8::encode_utf8(head) =~= seq![65u8, 84u8, 43u8]) by {
        assert(head[0] as u8 == utf8::encode_utf8(head)[0]);
        assert(head[1] as u8 == utf8::encode_utf8(head)[1]);
        assert(head[2] as u8 == utf8::encode_utf8(head)[2]);
    }
    assert(utf8::is_ascii_chars(code)) by {
        assert forall|i: int| 0 <= i < code.len() implies '\0' <= #[trigger] code[i]
            <= '\u{7f}' by {
            assert('A' <= code[i] <= 'Z');
        }
    }
    utf8::is_ascii_chars_encode_utf8(code);
    let bytes = utf8::encode_utf8(code);
    assert forall|i: int| 0 <= i < bytes.len() implies 65 <= #[trigger] bytes[i] <= 90 by {
        assert('A' <= code[i] <= 'Z');
        assert(code[i] as u8 == bytes[i]);
    }
    text::laws::lemma_encode_add(head, code);
    let line = utf8::encode_utf8(head + code) + after;
    assert(line =~= seq![65u8, 84u8, 43u8] + (bytes + after));
    assert(line.take(3) =~= seq![65u8, 84u8, 43u8]);
    assert(line.skip(3) =~= bytes + after);
    lemma_upper_case(bytes, after);
    let rest = line.skip(3);
    let n = bytes.len() as int;
    assert(rest.skip(n) =~= after);
    assert(rest.take(n) =~= bytes);
    text::lemma_text_round_trip(code);
}

/// The first bytes of what follows a mnemonic.
proof fn lemma_form(after: Seq<u8>)
    ensures
        after.len() >= 1 ==> (at::starts_with(after, seq![61u8]) <==> after[0] == 61),
        after.len() >= 1 ==> (at::starts_with(after, seq![63u8]) <==> after[0] == 63),
        after.len() >= 2 ==> (at::starts_with(after, seq![61u8, 63u8]) <==> after[0] == 61
            && after[1] == 63),
{
    if after.len() >= 1 {
        assert(after.take(1)[0] == after[0]);
        assert(seq![61u8][0] == 61 && seq![63u8][0] == 63);
        if after[0] == 61 {
            assert(after.take(1) =~= seq![61u8]);
        }
        if after[0] == 63 {
            assert(after.take(1) =~= seq![63u8]);
        }
    }
    if after.len() >= 2 {
        assert(after.take(2)[0] == after[0]);
        assert(after.take(2)[1] == after[1]);
        assert(seq![61u8, 63u8][0] == 61 && seq![61u8, 63u8][1] == 63);
        if after[0] == 61 && after[1] == 63 {
            assert(after.take(2) =~= seq![61u8, 63u8]);
        }
    }
}

/// A command with parameters is read as it was meant.
pub proof fn lemma_write_read(code: Seq<char>, parts: Seq<Seq<char>>, items: Seq<Written>)
    requires
        is_mnemonic(code),
        are_written(parts, items),
        laws::wire_all(items).len() > 0,
        laws::wire_all(items)[0] != 63,
    ensures
        at::command_of(utf8::encode_utf8("AT+"@ + code + "="@ + text::joined(parts))) == Ok::<
            AtCommandModel,
            Seq<char>,
        >(
            AtCommandModel {
                code,
                sub_code: AtSubCode::Write,
                parameters: laws::meaning_all(items),
            },
        ),
{
    if parts.len() == 0 {
        assert(laws::wire_all(items).len() == 0);
    }
    lemma_parameters_read(parts, items);
    reveal_strlit("=");
    assert("="@ =~= seq!['=']);
    lemma_char_byte('=');
    text::laws::lemma_encode_add("AT+"@ + code + "="@, text::joined(parts));
    text::laws::lemma_encode_add("AT+"@ + code, "="@);
    let after = seq![61u8] + laws::wire_all(items);
    assert(utf8::encode_utf8("AT+"@ + code + "="@ + text::joined(parts)) =~= utf8::encode_utf8(
        "AT+"@ + code,
    ) + after);
    assert(after[1] == laws::wire_all(items)[0]);
    lemma_form(after);
    assert(after.skip(1) =~= laws::wire_all(items));
    lemma_extended_command(code, after);
}

/// A command with an empty parameter list has no parameters.
pub proof fn lemma_empty_write_read(code: Seq<char>)
    requires
        is_mnemonic(code),
    ensures
        at::command_of(utf8::encode_utf8("AT+"@ + code + "="@)) == Ok::<
            AtCommandModel,
            Seq<char>,
        >(AtCommandModel { code, sub_code: AtSubCode::Write, parameters: seq![] }),
{
    reveal_strlit("=");
    assert("="@ =~= seq!['=']);
    lemma_char_byte('=');
    text::laws::lemma_encode_add("AT+"@ + code, "="@);
    lemma_form(seq![61u8]);
    lemma_extended_command(code, seq![61u8]);
}

/// A test command is read as it was meant.
pub proof fn lemma_test_read(code: Seq<char>)
    requires
        is_mnemonic(code),
    ensures
        at::command_of(utf8::encode_utf8("AT+"@ + code + "=?"@)) == Ok::<
            AtCommandModel,
            Seq<char>,
        >(AtCommandModel { code, sub_code: AtSubCode::Test, parameters: seq![] }),
{
    reveal_strlit("=?");
    assert("=?"@ =~= seq!['='] + seq!['?']);
    lemma_char_byte('=');
    lemma_char_byte('?');
    text::laws::lemma_encode_add(seq!['='], seq!['?']);
    text::laws::lemma_encode_add("AT+"@ + code, "=?"@);
    let after = seq![61u8, 63u8];
    assert(utf8::encode_utf8("=?"@) =~= after);
    lemma_form(after);
    lemma_extended_command(code, after);
}

/// A read command is read as it was meant.
pub proof fn lemma_read_read(code: Seq<char>)
    requires
        is_mnemonic(code),
    ensures
        at::command_of(utf8::encode_utf8("AT+"@ + code + "?"@)) == Ok::<
            AtCommandModel,
            Seq<char>,
        >(AtCommandModel { code, sub_code: AtSubCode::Read, parameters: seq![] }),
{
    reveal_strlit("?");
    assert("?"@ =~= seq!['?']);
    lemma_char_byte('?');
    text::laws::lemma_encode_add("AT+"@ + code, "?"@);
    lemma_form(seq![63u8]);
    lemma_extended_command(code, seq![63u8]);
}

/// A plain command is read as it was meant.
pub proof fn lemma_plain_read(code: Seq<char>)
    requires
        is_mnemonic(code),
    ensures
        at::command_of(utf8::encode_utf8("AT+"@ + code)) == Ok::<AtCommandModel, Seq<char>>(
            AtCommandModel { code, sub_code: AtSubCode::Plain, parameters: seq![] },
        ),
{
    let after: Seq<u8> = seq![];
    assert(utf8::encode_utf8("AT+"@ + code) + after =~= utf8::encode_utf8("AT+"@ + code));
    lemma_extended_command(code, after);
}

} // verus!
