//! What one side sends is what the other side takes in.

use vstd::prelude::*;
use vstd::utf8;
use crate::classic::at;
use crate::classic::at::laws::Written;
use crate::classic::at::{AtCommandModel, AtParameterModel, AtResponseModel, AtSubCode};
use crate::classic::hfp::event::EventModel;
use crate::classic::hfp::gateway;
use crate::classic::hfp::gateway::AgModel;
use crate::classic::hfp::laws;
use crate::classic::hfp::reading;
use crate::text;

verus! {

// ---------------------------------------------------------------------------
// Lines
// ---------------------------------------------------------------------------

/// A text made of two that fit on a line fits on a line.
pub broadcast proof fn lemma_fits_add(a: Seq<char>, b: Seq<char>)
    requires
        laws::fits_line(a),
        laws::fits_line(b),
    ensures
        #[trigger] laws::fits_line(a + b),
{
    assert forall|i: int| 0 <= i < (a + b).len() implies #[trigger] (a + b)[i] != '\r' by {
        if i < a.len() {
            assert(a[i] != '\r');
        } else {
            assert(b[i - a.len()] != '\r');
        }
    }
}

/// A number fits on a line.
pub broadcast proof fn lemma_fits_decimal(n: nat)
    ensures
        #[trigger] laws::fits_line(text::decimal(n)),
    decreases n,
{
    let last = text::digit_char(n % 10);
    assert(last as u32 == 48 + n % 10);
    assert(last != '\r');
    if n >= 10 {
        lemma_fits_decimal(n / 10);
        let before = text::decimal(n / 10);
        assert forall|i: int| 0 <= i < text::decimal(n).len() implies #[trigger] text::decimal(
            n,
        )[i] != '\r' by {
            if i < before.len() {
                assert(before[i] != '\r');
            }
        }
    }
}

/// Texts that fit on a line fit on a line together.
pub proof fn lemma_fits_joined(parts: Seq<Seq<char>>)
    requires
        forall|i: int| 0 <= i < parts.len() ==> laws::fits_line(#[trigger] parts[i]),
    ensures
        laws::fits_line(text::joined(parts)),
    decreases parts.len(),
{
    if parts.len() > 1 {
        assert forall|i: int| 0 <= i < parts.drop_last().len() implies laws::fits_line(
            #[trigger] parts.drop_last()[i],
        ) by {
            assert(laws::fits_line(parts[i]));
        }
        lemma_fits_joined(parts.drop_last());
        reveal_strlit(",");
        assert(laws::fits_line(","@));
        lemma_fits_add(text::joined(parts.drop_last()), ","@);
        assert(laws::fits_line(parts[parts.len() - 1]));
        lemma_fits_add(text::joined(parts.drop_last()) + ","@, parts.last());
    } else if parts.len() == 1 {
        assert(laws::fits_line(parts[0]));
    }
}

/// A text in double quotes fits on a line if the text does.
pub proof fn lemma_fits_quoted(s: Seq<char>)
    requires
        laws::fits_line(s),
    ensures
        laws::fits_line(text::quoted(s)),
{
    reveal_strlit("\"");
    assert(laws::fits_line("\""@));
    lemma_fits_add("\""@, s);
    lemma_fits_add("\""@ + s, "\""@);
}

// ---------------------------------------------------------------------------
// Numbers on lines
// ---------------------------------------------------------------------------

/// Numbers in decimal notation.
pub open spec fn number_parts(numbers: Seq<u32>) -> Seq<Seq<char>> {
    Seq::new(numbers.len(), |i: int| text::decimal(numbers[i] as nat))
}

/// Numbers as they are written.
pub open spec fn number_items(numbers: Seq<u32>) -> Seq<Written> {
    Seq::new(numbers.len(), |i: int| reading::number_item(numbers[i]))
}

/// Parameters that are numbers.
pub open spec fn are_numbers(p: Seq<AtParameterModel>, numbers: Seq<u32>) -> bool {
    &&& p.len() == numbers.len()
    &&& forall|i: int| 0 <= i < p.len() ==> (#[trigger] p[i]).number() == Some(numbers[i])
    &&& forall|i: int| 0 <= i < p.len() ==> (#[trigger] p[i]) == AtParameterModel::Value(
        utf8::encode_utf8(text::decimal(numbers[i] as nat)),
    )
}

/// Numbers are written as such, and read as such.
pub proof fn lemma_numbers(numbers: Seq<u32>)
    ensures
        reading::are_written(number_parts(numbers), number_items(numbers)),
        are_numbers(at::laws::meaning_all(number_items(numbers)), numbers),
        laws::fits_line(text::joined(number_parts(numbers))),
        numbers.len() > 0 ==> at::laws::wire_all(number_items(numbers)).len() > 0
            && text::is_digit(at::laws::wire_all(number_items(numbers))[0]),
{
    let parts = number_parts(numbers);
    let items = number_items(numbers);
    assert forall|i: int| 0 <= i < parts.len() implies utf8::encode_utf8(#[trigger] parts[i])
        == items[i].wire() && items[i].writable() by {
        reading::lemma_number_item(numbers[i]);
    }
    reading::lemma_meanings(items);
    let p = at::laws::meaning_all(items);
    assert forall|i: int| 0 <= i < p.len() implies (#[trigger] p[i]).number() == Some(
        numbers[i],
    ) by {
        reading::lemma_number_item(numbers[i]);
        assert(p[i] == items[i].meaning());
    }
    assert forall|i: int| 0 <= i < p.len() implies (#[trigger] p[i]) == AtParameterModel::Value(
        utf8::encode_utf8(text::decimal(numbers[i] as nat)),
    ) by {
        assert(p[i] == items[i].meaning());
    }
    assert forall|i: int| 0 <= i < parts.len() implies laws::fits_line(#[trigger] parts[i]) by {
        lemma_fits_decimal(numbers[i] as nat);
    }
    lemma_fits_joined(parts);
    if numbers.len() > 0 {
        lemma_wire_starts(items);
        reading::lemma_number_item(numbers[0]);
    }
}

/// Written parameters start with the first of them.
pub proof fn lemma_wire_starts(items: Seq<Written>)
    requires
        items.len() > 0,
        items[0].wire().len() > 0,
    ensures
        at::laws::wire_all(items).len() > 0,
        at::laws::wire_all(items)[0] == items[0].wire()[0],
    decreases items.len(),
{
    if items.len() > 1 {
        lemma_wire_starts(items.drop_last());
    }
}

/// A response with numbers is read as its code and the numbers.
pub proof fn lemma_number_response(code: Seq<char>, numbers: Seq<u32>)
    requires
        forall|i: int| 0 <= i < code.len() ==> #[trigger] code[i] != ':',
        laws::fits_line(code),
        numbers.len() > 0,
    ensures
        ({
            let line = code + ": "@ + text::joined(number_parts(numbers));
            let p = at::laws::meaning_all(number_items(numbers));
            &&& laws::fits_line(line)
            &&& at::response_of(utf8::encode_utf8(line)) == Ok::<AtResponseModel, Seq<char>>(
                AtResponseModel { code, parameters: p },
            )
            &&& utf8::encode_utf8(line).len() > 0
            &&& are_numbers(p, numbers)
        }),
{
    lemma_numbers(numbers);
    reading::lemma_response_read(code, number_parts(numbers), number_items(numbers));
    reveal_strlit(": ");
    assert(laws::fits_line(": "@));
    lemma_fits_add(code, ": "@);
    lemma_fits_add(code + ": "@, text::joined(number_parts(numbers)));
    reading::lemma_encode_len(code + ": "@ + text::joined(number_parts(numbers)));
}

/// A command with numbers is read as its code and the numbers.
pub proof fn lemma_number_command(code: Seq<char>, numbers: Seq<u32>)
    requires
        reading::is_mnemonic(code),
        laws::fits_line(code),
        numbers.len() > 0,
    ensures
        ({
            let line = "AT+"@ + code + "="@ + text::joined(number_parts(numbers));
            let p = at::laws::meaning_all(number_items(numbers));
            &&& laws::fits_line(line)
            &&& at::command_of(utf8::encode_utf8(line)) == Ok::<AtCommandModel, Seq<char>>(
                AtCommandModel { code, sub_code: AtSubCode::Write, parameters: p },
            )
            &&& utf8::encode_utf8(line).len() > 0
            &&& are_numbers(p, numbers)
        }),
{
    lemma_numbers(numbers);
    reading::lemma_write_read(code, number_parts(numbers), number_items(numbers));
    lemma_fits_command(code, "="@ + text::joined(number_parts(numbers)));
    reveal_strlit("=");
    assert(laws::fits_line("="@));
    lemma_fits_add("="@, text::joined(number_parts(numbers)));
    lemma_fits_command(code, "="@ + text::joined(number_parts(numbers)));
    assert("AT+"@ + code + "="@ + text::joined(number_parts(numbers)) =~= "AT+"@ + code + ("="@
        + text::joined(number_parts(numbers))));
    reading::lemma_encode_len("AT+"@ + code + "="@ + text::joined(number_parts(numbers)));
}

/// A command fits on a line if what follows its code does.
pub proof fn lemma_fits_command(code: Seq<char>, after: Seq<char>)
    requires
        laws::fits_line(code),
    ensures
        laws::fits_line(after) ==> laws::fits_line("AT+"@ + code + after),
        ("AT+"@ + code + after).len() >= 3,
{
    reveal_strlit("AT+");
    assert(laws::fits_line("AT+"@));
    lemma_fits_add("AT+"@, code);
    if laws::fits_line(after) {
        lemma_fits_add("AT+"@ + code, after);
    }
}

/// One number joined is the number.
pub proof fn lemma_one_number(n: u32)
    ensures
        text::joined(number_parts(seq![n])) == text::decimal(n as nat),
{
    assert(number_parts(seq![n])[0] == text::decimal(n as nat));
}

/// Two numbers joined have a comma between them.
pub proof fn lemma_two_numbers(a: u32, b: u32)
    ensures
        text::joined(number_parts(seq![a, b])) == text::decimal(a as nat) + ","@ + text::decimal(
            b as nat,
        ),
{
    let parts = number_parts(seq![a, b]);
    assert(parts.drop_last() =~= number_parts(seq![a]));
    lemma_one_number(a);
    assert(parts.last() == text::decimal(b as nat));
}

// ---------------------------------------------------------------------------
// Commands by their codes
// ---------------------------------------------------------------------------

/// Which command does what.
pub proof fn lemma_dispatch(m: AgModel, c: AtCommandModel)
    ensures
        ({
            let p = c.parameters;
            &&& (c.code == "BRSF"@ && c.sub_code == AtSubCode::Write) ==> gateway::on_command(m, c)
                == gateway::on_brsf(m, p)
            &&& (c.code == "BAC"@ && c.sub_code == AtSubCode::Write) ==> gateway::on_command(m, c)
                == gateway::on_bac(m, p)
            &&& (c.code == "BCS"@ && c.sub_code == AtSubCode::Write) ==> gateway::on_command(m, c)
                == gateway::on_bcs(m, p)
            &&& (c.code == "BVRA"@ && c.sub_code == AtSubCode::Write) ==> gateway::on_command(m, c)
                == gateway::on_bvra(m, p)
            &&& (c.code == "CHLD"@ && c.sub_code == AtSubCode::Write) ==> gateway::on_command(m, c)
                == gateway::on_chld(m, p)
            &&& (c.code == "CHLD"@ && c.sub_code == AtSubCode::Test) ==> gateway::on_command(m, c)
                == gateway::on_chld_test(m)
            &&& (c.code == "CIND"@ && c.sub_code == AtSubCode::Test) ==> gateway::on_command(m, c)
                == gateway::on_cind_test(m)
            &&& (c.code == "CIND"@ && c.sub_code == AtSubCode::Read) ==> gateway::on_command(m, c)
                == gateway::on_cind_read(m)
            &&& (c.code == "CMER"@ && c.sub_code == AtSubCode::Write) ==> gateway::on_command(m, c)
                == gateway::on_cmer(m, p)
            &&& (c.code == "BIND"@ && c.sub_code == AtSubCode::Write) ==> gateway::on_command(m, c)
                == gateway::on_bind(m, p)
            &&& (c.code == "BIND"@ && c.sub_code == AtSubCode::Test) ==> gateway::on_command(m, c)
                == gateway::on_bind_test(m)
            &&& (c.code == "BIND"@ && c.sub_code == AtSubCode::Read) ==> gateway::on_command(m, c)
                == gateway::on_bind_read(m)
            &&& (c.code == "BIEV"@ && c.sub_code == AtSubCode::Write) ==> gateway::on_command(m, c)
                == gateway::on_biev(m, p)
            &&& (c.code == "BCC"@ && c.sub_code == AtSubCode::Plain) ==> gateway::on_command(m, c)
                == gateway::on_bcc(m)
            &&& (c.code == "D"@ && c.sub_code == AtSubCode::Plain) ==> gateway::on_command(m, c)
                == gateway::on_dial(m, p)
            &&& (c.code == "CLCC"@ && c.sub_code == AtSubCode::Plain) ==> gateway::on_command(m, c)
                == gateway::on_clcc(m)
            &&& (c.code == "COPS"@ && c.sub_code == AtSubCode::Write) ==> gateway::on_command(m, c)
                == gateway::on_cops_set(m, p)
            &&& (c.code == "COPS"@ && c.sub_code == AtSubCode::Read) ==> gateway::on_command(m, c)
                == gateway::on_cops_read(m)
            &&& (c.code == "CMEE"@ && c.sub_code == AtSubCode::Write) ==> gateway::on_command(m, c)
                == gateway::on_cmee(m, p)
            &&& (c.code == "CCWA"@ && c.sub_code == AtSubCode::Write) ==> gateway::on_command(m, c)
                == gateway::on_ccwa(m, p)
            &&& (c.code == "BIA"@ && c.sub_code == AtSubCode::Write) ==> gateway::on_command(m, c)
                == gateway::on_bia(m, p)
            &&& (c.code == "CLIP"@ && c.sub_code == AtSubCode::Write) ==> gateway::on_command(m, c)
                == gateway::on_clip(m, p)
            &&& (c.code == "VGS"@ && c.sub_code == AtSubCode::Write) ==> gateway::on_command(m, c)
                == gateway::on_vgs(m, p)
            &&& (c.code == "VGM"@ && c.sub_code == AtSubCode::Write) ==> gateway::on_command(m, c)
                == gateway::on_vgm(m, p)
            &&& (c.code == "A"@ && c.sub_code == AtSubCode::Plain) ==> gateway::on_command(m, c)
                == (m, gateway::accept().told(EventModel::Answer))
            &&& (c.code == "CHUP"@ && c.sub_code == AtSubCode::Plain) ==> gateway::on_command(m, c)
                == (m, gateway::accept().told(EventModel::HangUp))
        }),
{
    reveal_strlit("BRSF");
    reveal_strlit("BAC");
    reveal_strlit("BCS");
    reveal_strlit("BVRA");
    reveal_strlit("CHLD");
    reveal_strlit("CIND");
    reveal_strlit("CMER");
    reveal_strlit("CMEE");
    reveal_strlit("CCWA");
    reveal_strlit("BIND");
    reveal_strlit("BIEV");
    reveal_strlit("BIA");
    reveal_strlit("BCC");
    reveal_strlit("A");
    reveal_strlit("D");
    reveal_strlit("CHUP");
    reveal_strlit("CLCC");
    reveal_strlit("CLIP");
    reveal_strlit("COPS");
    reveal_strlit("VGS");
    reveal_strlit("VGM");
    assert("BRSF"@.len() == 4 && "BRSF"@[0] == 'B' && "BRSF"@[1] == 'R' && "BRSF"@[2] == 'S'
        && "BRSF"@[3] == 'F');
    assert("BAC"@.len() == 3 && "BAC"@[0] == 'B' && "BAC"@[1] == 'A' && "BAC"@[2] == 'C');
    assert("BCS"@.len() == 3 && "BCS"@[0] == 'B' && "BCS"@[1] == 'C' && "BCS"@[2] == 'S');
    assert("BVRA"@.len() == 4 && "BVRA"@[0] == 'B' && "BVRA"@[1] == 'V' && "BVRA"@[2] == 'R'
        && "BVRA"@[3] == 'A');
    assert("CHLD"@.len() == 4 && "CHLD"@[0] == 'C' && "CHLD"@[1] == 'H' && "CHLD"@[2] == 'L'
        && "CHLD"@[3] == 'D');
    assert("CIND"@.len() == 4 && "CIND"@[0] == 'C' && "CIND"@[1] == 'I' && "CIND"@[2] == 'N'
        && "CIND"@[3] == 'D');
    assert("CMER"@.len() == 4 && "CMER"@[0] == 'C' && "CMER"@[1] == 'M' && "CMER"@[2] == 'E'
        && "CMER"@[3] == 'R');
    assert("CMEE"@.len() == 4 && "CMEE"@[0] == 'C' && "CMEE"@[1] == 'M' && "CMEE"@[2] == 'E'
        && "CMEE"@[3] == 'E');
    assert("CCWA"@.len() == 4 && "CCWA"@[0] == 'C' && "CCWA"@[1] == 'C' && "CCWA"@[2] == 'W'
        && "CCWA"@[3] == 'A');
    assert("BIND"@.len() == 4 && "BIND"@[0] == 'B' && "BIND"@[1] == 'I' && "BIND"@[2] == 'N'
        && "BIND"@[3] == 'D');
    assert("BIEV"@.len() == 4 && "BIEV"@[0] == 'B' && "BIEV"@[1] == 'I' && "BIEV"@[2] == 'E'
        && "BIEV"@[3] == 'V');
    assert("BIA"@.len() == 3 && "BIA"@[0] == 'B' && "BIA"@[1] == 'I' && "BIA"@[2] == 'A');
    assert("BCC"@.len() == 3 && "BCC"@[0] == 'B' && "BCC"@[1] == 'C' && "BCC"@[2] == 'C');
    assert("A"@.len() == 1 && "A"@[0] == 'A');
    assert("D"@.len() == 1 && "D"@[0] == 'D');
    assert("CHUP"@.len() == 4 && "CHUP"@[0] == 'C' && "CHUP"@[1] == 'H' && "CHUP"@[2] == 'U'
        && "CHUP"@[3] == 'P');
    assert("CLCC"@.len() == 4 && "CLCC"@[0] == 'C' && "CLCC"@[1] == 'L' && "CLCC"@[2] == 'C'
        && "CLCC"@[3] == 'C');
    assert("CLIP"@.len() == 4 && "CLIP"@[0] == 'C' && "CLIP"@[1] == 'L' && "CLIP"@[2] == 'I'
        && "CLIP"@[3] == 'P');
    assert("COPS"@.len() == 4 && "COPS"@[0] == 'C' && "COPS"@[1] == 'O' && "COPS"@[2] == 'P'
        && "COPS"@[3] == 'S');
    assert("VGS"@.len() == 3 && "VGS"@[0] == 'V' && "VGS"@[1] == 'G' && "VGS"@[2] == 'S');
    assert("VGM"@.len() == 3 && "VGM"@[0] == 'V' && "VGM"@[1] == 'G' && "VGM"@[2] == 'M');
}

/// The codes of commands are mnemonics, and fit on a line.
pub proof fn lemma_mnemonics()
    ensures
        reading::is_mnemonic("BRSF"@),
        reading::is_mnemonic("BAC"@),
        reading::is_mnemonic("BCS"@),
        reading::is_mnemonic("BVRA"@),
        reading::is_mnemonic("CHLD"@),
        reading::is_mnemonic("CIND"@),
        reading::is_mnemonic("CMER"@),
        reading::is_mnemonic("BIND"@),
        reading::is_mnemonic("BIEV"@),
        reading::is_mnemonic("BCC"@),
        reading::is_mnemonic("CLCC"@),
        reading::is_mnemonic("COPS"@),
        reading::is_mnemonic("VGM"@),
        reading::is_mnemonic("VGS"@),
        reading::is_mnemonic("CLIP"@),
        reading::is_mnemonic("CHUP"@),
        reading::is_mnemonic("BIA"@),
        reading::is_mnemonic("CCWA"@),
        reading::is_mnemonic("CMEE"@),
        laws::fits_line("BRSF"@),
        laws::fits_line("BAC"@),
        laws::fits_line("BCS"@),
        laws::fits_line("BVRA"@),
        laws::fits_line("CHLD"@),
        laws::fits_line("CIND"@),
        laws::fits_line("CMER"@),
        laws::fits_line("BIND"@),
        laws::fits_line("BIEV"@),
        laws::fits_line("BCC"@),
        laws::fits_line("CLCC"@),
        laws::fits_line("COPS"@),
        laws::fits_line("VGM"@),
        laws::fits_line("VGS"@),
        laws::fits_line("CLIP"@),
        laws::fits_line("CHUP"@),
        laws::fits_line("BIA"@),
        laws::fits_line("CCWA"@),
        laws::fits_line("CMEE"@),
{
    reveal_strlit("BRSF");
    reveal_strlit("BAC");
    reveal_strlit("BCS");
    reveal_strlit("BVRA");
    reveal_strlit("CHLD");
    reveal_strlit("CIND");
    reveal_strlit("CMER");
    reveal_strlit("BIND");
    reveal_strlit("BIEV");
    reveal_strlit("BCC");
    reveal_strlit("CLCC");
    reveal_strlit("CMEE");
    reveal_strlit("CCWA");
    reveal_strlit("BIA");
    reveal_strlit("CHUP");
    reveal_strlit("CLIP");
    reveal_strlit("VGS");
    reveal_strlit("VGM");
    reveal_strlit("COPS");
}

} // verus!
