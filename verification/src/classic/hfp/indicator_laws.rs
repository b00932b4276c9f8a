//! A list of indicators is read as the indicators that it was made of.

use vstd::prelude::*;
use vstd::utf8;
use crate::classic::at;
use crate::classic::at::laws::Written;
use crate::classic::at::AtParameterModel;
use crate::classic::hfp::exchange;
use crate::classic::hfp::indicator;
use crate::classic::hfp::indicator::AgIndicatorModel;
use crate::classic::hfp::laws;
use crate::classic::hfp::reading;
use crate::classic::hfp::values;
use crate::classic::hfp::values::AgIndicator;
use crate::text;

verus! {

// ---------------------------------------------------------------------------
// Ascending order
// ---------------------------------------------------------------------------

/// A number goes into ascending numbers.
proof fn lemma_put_in_order(s: Seq<u32>, v: u32) -> (r: Seq<u32>)
    requires
        indicator::increasing(s),
        !s.contains(v),
    ensures
        indicator::increasing(r),
        forall|x: u32| #[trigger] r.contains(x) <==> s.contains(x) || x == v,
    decreases s.len(),
{
    if s.len() == 0 {
        let r = seq![v];
        assert(r[0] == v);
        r
    } else if s.last() < v {
        let r = s.push(v);
        assert forall|x: u32| #[trigger] r.contains(x) <==> s.contains(x) || x == v by {
            if s.contains(x) {
                let i = choose|i: int| 0 <= i < s.len() && s[i] == x;
                assert(r[i] == x);
            }
            assert(r[s.len() as int] == v);
        }
        r
    } else {
        let before = s.drop_last();
        let last = s.last();
        assert(s[s.len() - 1] == last);
        assert(last != v);
        assert forall|x: u32| before.contains(x) implies s.contains(x) && x < last by {
            let i = choose|i: int| 0 <= i < before.len() && before[i] == x;
            assert(s[i] == x);
        }
        assert(!before.contains(v));
        let q = lemma_put_in_order(before, v);
        let r = q.push(last);
        assert forall|i: int, j: int| 0 <= i < j < r.len() implies r[i] < r[j] by {
            if j == q.len() {
                assert(q.contains(q[i]));
            }
        }
        assert forall|x: u32| #[trigger] r.contains(x) <==> s.contains(x) || x == v by {
            if r.contains(x) {
                let i = choose|i: int| 0 <= i < r.len() && r[i] == x;
                if i < q.len() {
                    assert(q.contains(q[i]));
                }
            }
            if s.contains(x) {
                let i = choose|i: int| 0 <= i < s.len() && s[i] == x;
                if i < before.len() {
                    assert(before[i] == x);
                    assert(before.contains(x));
                    assert(q.contains(x));
                    let k = choose|k: int| 0 <= k < q.len() && q[k] == x;
                    assert(r[k] == x);
                } else {
                    assert(r[q.len() as int] == x);
                }
            }
            if x == v {
                assert(q.contains(v));
                let k = choose|k: int| 0 <= k < q.len() && q[k] == v;
                assert(r[k] == v);
            }
        }
        r
    }
}

/// Every finite set has an ascending order.
proof fn lemma_has_order(values: Set<u32>) -> (s: Seq<u32>)
    requires
        values.finite(),
    ensures
        indicator::increasing(s),
        s.to_set() == values,
    decreases values.len(),
{
    if values.len() == 0 {
        let s: Seq<u32> = seq![];
        assert(values =~= Set::empty());
        assert(s.to_set() =~= values);
        s
    } else {
        let v = values.choose();
        let rest = values.remove(v);
        let q = lemma_has_order(rest);
        assert(!q.contains(v)) by {
            assert(q.to_set().contains(v) == rest.contains(v));
        }
        let s = lemma_put_in_order(q, v);
        assert forall|x: u32| s.to_set().contains(x) == values.contains(x) by {
            assert(s.contains(x) <==> q.contains(x) || x == v);
            assert(q.to_set().contains(x) == rest.contains(x));
        }
        assert(s.to_set() =~= values);
        s
    }
}

/// The ascending order of a finite set is one, and holds its numbers.
pub proof fn lemma_order(values: Set<u32>)
    requires
        values.finite(),
    ensures
        indicator::increasing(indicator::ascending(values)),
        indicator::ascending(values).to_set() == values,
{
    let s = lemma_has_order(values);
    indicator::lemma_ascending(s, values);
}

/// Ascending numbers are at least as far apart as their positions.
proof fn lemma_apart(s: Seq<u32>, i: int, j: int)
    requires
        indicator::increasing(s),
        0 <= i <= j < s.len(),
    ensures
        s[j] - s[i] >= j - i,
    decreases j - i,
{
    if i < j {
        lemma_apart(s, i, j - 1);
        assert(s[j - 1] < s[j]);
    }
}

/// Ascending numbers without a gap are all between their bounds.
proof fn lemma_no_gap(s: Seq<u32>)
    requires
        indicator::increasing(s),
        s.len() > 0,
        s.len() == s.last() - s[0] + 1,
    ensures
        s.to_set() == indicator::values_between(s[0], s.last()),
{
    let n = s.len() - 1;
    assert forall|x: u32| s.to_set().contains(x) == indicator::values_between(
        s[0],
        s.last(),
    ).contains(x) by {
        if s.contains(x) {
            let i = choose|i: int| 0 <= i < s.len() && s[i] == x;
            lemma_apart(s, 0, i);
            lemma_apart(s, i, n);
        }
        if s[0] <= x <= s.last() {
            let i = x - s[0];
            lemma_apart(s, 0, i);
            lemma_apart(s, i, n);
            assert(s[i] == x);
        }
    }
    assert(s.to_set() =~= indicator::values_between(s[0], s.last()));
}

// ---------------------------------------------------------------------------
// Values
// ---------------------------------------------------------------------------

/// Two numbers with a hyphen between them.
spec fn run_text(lo: u32, hi: u32) -> Seq<char> {
    text::decimal(lo as nat) + "-"@ + text::decimal(hi as nat)
}

/// The bytes of a run of values, and how they are read.
proof fn lemma_run_read(lo: u32, hi: u32)
    ensures
        ({
            let raw = utf8::encode_utf8(run_text(lo, hi));
            &&& at::laws::all_ordinary(raw)
            &&& indicator::bounds_of(raw) == Some((lo, hi))
        }),
{
    let a = utf8::encode_utf8(text::decimal(lo as nat));
    let b = utf8::encode_utf8(text::decimal(hi as nat));
    reveal_strlit("-");
    assert("-"@ =~= seq!['-']);
    reading::lemma_char_byte('-');
    text::laws::lemma_encode_add(text::decimal(lo as nat) + "-"@, text::decimal(hi as nat));
    text::laws::lemma_encode_add(text::decimal(lo as nat), "-"@);
    let raw = utf8::encode_utf8(run_text(lo, hi));
    assert(raw =~= a + seq![45u8] + b);
    text::laws::lemma_decimal_bytes(lo as nat);
    text::laws::lemma_decimal_bytes(hi as nat);
    text::laws::law_decimal_is_read(lo);
    text::laws::law_decimal_is_read(hi);
    assert forall|i: int| 0 <= i < raw.len() implies at::laws::is_ordinary(#[trigger] raw[i]) by {
        if i < a.len() {
            assert(text::is_digit(a[i]));
        } else if i > a.len() {
            assert(text::is_digit(b[i - a.len() - 1]));
        }
    }
    let n = a.len() as int;
    assert forall|i: int| 0 <= i < n implies raw[i] != 45 by {
        assert(raw[i] == a[i]);
        assert(text::is_digit(a[i]));
    }
    text::lemma_run_without_is(raw, 45, n);
    assert(raw.take(n) =~= a);
    let rest = raw.skip(n + 1);
    assert(rest =~= b);
    assert forall|i: int| 0 <= i < b.len() implies b[i] != 45 by {
        assert(text::is_digit(b[i]));
    }
    text::lemma_run_without_is(b, 45, b.len() as int);
    assert(b.take(b.len() as int) =~= b);
}

/// A number is a run of one value.
proof fn lemma_number_is_run(n: u32)
    ensures
        indicator::bounds_of(utf8::encode_utf8(text::decimal(n as nat))) == Some((n, n)),
{
    let a = utf8::encode_utf8(text::decimal(n as nat));
    text::laws::lemma_decimal_bytes(n as nat);
    text::laws::law_decimal_is_read(n);
    assert forall|i: int| 0 <= i < a.len() implies a[i] != 45 by {
        assert(text::is_digit(a[i]));
    }
    text::lemma_run_without_is(a, 45, a.len() as int);
    assert(a.take(a.len() as int) =~= a);
}

/// Numbers one by one are read as the set of them.
proof fn lemma_numbers_are_values(numbers: Seq<u32>, p: Seq<AtParameterModel>)
    requires
        exchange::are_numbers(p, numbers),
    ensures
        indicator::values_in(p) == Some(numbers.to_set()),
    decreases numbers.len(),
{
    if numbers.len() == 0 {
        assert(numbers.to_set() =~= Set::empty());
    } else {
        let n = numbers.len() - 1;
        let before = numbers.drop_last();
        let q = p.drop_last();
        assert forall|i: int| 0 <= i < q.len() implies (#[trigger] q[i]).number() == Some(
            before[i],
        ) by {
            assert(p[i].number() == Some(numbers[i]));
        }
        assert forall|i: int| 0 <= i < q.len() implies (#[trigger] q[i])
            == AtParameterModel::Value(utf8::encode_utf8(text::decimal(before[i] as nat))) by {
            assert(p[i].number() == Some(numbers[i]));
        }
        lemma_numbers_are_values(before, q);
        let v = numbers[n];
        assert(p[n].number() == Some(v));
        lemma_number_is_run(v);
        text::lemma_text_round_trip(text::decimal(v as nat));
        assert forall|x: u32| numbers.to_set().contains(x) == before.to_set().union(
            indicator::values_between(v, v),
        ).contains(x) by {
            if numbers.contains(x) {
                let i = choose|i: int| 0 <= i < numbers.len() && numbers[i] == x;
                if i < n {
                    assert(before[i] == x);
                }
            }
            if before.contains(x) {
                let i = choose|i: int| 0 <= i < before.len() && before[i] == x;
                assert(numbers[i] == x);
            }
            if x == v {
                assert(numbers[n] == x);
            }
        }
        assert(numbers.to_set() =~= before.to_set().union(indicator::values_between(v, v)));
    }
}

/// A set of values, as it is written.
pub open spec fn values_item(values: Set<u32>) -> Written {
    let s = indicator::ascending(values);
    if s.len() > 0 && s.len() == s.last() - s[0] + 1 {
        Written::Group(
            seq![
                Written::Bare(
                    utf8::encode_utf8(
                        text::decimal(s[0] as nat) + "-"@ + text::decimal(s.last() as nat),
                    ),
                ),
            ],
        )
    } else {
        Written::Group(exchange::number_items(s))
    }
}

/// The bytes of a text in parentheses.
pub proof fn lemma_parenthesized(s: Seq<char>)
    ensures
        utf8::encode_utf8("("@ + s + ")"@) == seq![40u8] + utf8::encode_utf8(s) + seq![41u8],
        laws::fits_line(s) ==> laws::fits_line("("@ + s + ")"@),
{
    reveal_strlit("(");
    reveal_strlit(")");
    assert("("@ =~= seq!['(']);
    assert(")"@ =~= seq![')']);
    reading::lemma_char_byte('(');
    reading::lemma_char_byte(')');
    text::laws::lemma_encode_add("("@ + s, ")"@);
    text::laws::lemma_encode_add("("@, s);
    if laws::fits_line(s) {
        assert(laws::fits_line("("@) && laws::fits_line(")"@));
        exchange::lemma_fits_add("("@, s);
        exchange::lemma_fits_add("("@ + s, ")"@);
    }
}

/// One parameter alone, in parentheses.
pub proof fn lemma_group_of_one(w: Written)
    requires
        w.writable(),
    ensures
        Written::Group(seq![w]).writable(),
        Written::Group(seq![w]).wire() == seq![40u8] + w.wire() + seq![41u8],
        Written::Group(seq![w]).meaning() == AtParameterModel::List(seq![w.meaning()]),
{
    let items = seq![w];
    assert(items.last() == w);
    assert(items.drop_last() =~= seq![]);
    assert(at::laws::all_writable(items.drop_last()));
    assert(at::laws::all_writable(items));
    assert(at::laws::wire_all(items) == w.wire());
    assert(at::laws::meaning_all(items.drop_last()) =~= seq![]);
    assert(at::laws::meaning_all(items) =~= seq![w.meaning()]);
}

/// Parameters in parentheses.
pub proof fn lemma_group(parts: Seq<Seq<char>>, items: Seq<Written>)
    requires
        reading::are_written(parts, items),
    ensures
        Written::Group(items).writable(),
        Written::Group(items).wire() == utf8::encode_utf8("("@ + text::joined(parts) + ")"@),
        items.len() > 0 ==> Written::Group(items).meaning() == AtParameterModel::List(
            at::laws::meaning_all(items),
        ),
{
    reading::lemma_joined(parts, items);
    assert forall|i: int| 0 <= i < items.len() implies (#[trigger] items[i]).writable() by {
        assert(utf8::encode_utf8(parts[i]) == items[i].wire());
    }
    reading::lemma_all_writable(items);
    lemma_parenthesized(text::joined(parts));
}

/// A set of values is written as such, and read as the set.
pub proof fn lemma_values_read(values: Set<u32>)
    requires
        values.finite(),
        values.len() > 0,
    ensures
        values_item(values).writable(),
        values_item(values).wire() == utf8::encode_utf8(indicator::values_text(values)),
        values_item(values).meaning() is List,
        indicator::values_in(values_item(values).meaning()->List_0) == Some(values),
        laws::fits_line(indicator::values_text(values)),
{
    lemma_order(values);
    let s = indicator::ascending(values);
    assert(s.len() > 0) by {
        if s.len() == 0 {
            assert(s.to_set() =~= Set::empty());
        }
    }
    if s.len() == s.last() - s[0] + 1 {
        let lo = s[0];
        let hi = s.last();
        let run = run_text(lo, hi);
        let raw = utf8::encode_utf8(run);
        lemma_run_read(lo, hi);
        lemma_no_gap(s);
        let w = Written::Bare(raw);
        lemma_group_of_one(w);
        lemma_parenthesized(run);
        assert(indicator::values_text(values) =~= "("@ + run + ")"@);
        let p = seq![w.meaning()];
        assert(p.drop_last() =~= seq![]);
        assert(indicator::values_in(p.drop_last()) == Some(Set::<u32>::empty()));
        text::lemma_text_round_trip(run);
        assert(p.last() == AtParameterModel::Value(raw));
        assert(Set::<u32>::empty().union(indicator::values_between(lo, hi)) =~= values);
        reveal_strlit("-");
        assert(laws::fits_line("-"@));
        exchange::lemma_fits_decimal(lo as nat);
        exchange::lemma_fits_decimal(hi as nat);
        exchange::lemma_fits_add(text::decimal(lo as nat), "-"@);
        exchange::lemma_fits_add(text::decimal(lo as nat) + "-"@, text::decimal(hi as nat));
    } else {
        exchange::lemma_numbers(s);
        assert(indicator::decimals(s) =~= exchange::number_parts(s));
        lemma_group(exchange::number_parts(s), exchange::number_items(s));
        lemma_numbers_are_values(s, at::laws::meaning_all(exchange::number_items(s)));
        lemma_parenthesized(text::joined(exchange::number_parts(s)));
    }
}

// ---------------------------------------------------------------------------
// Indicators
// ---------------------------------------------------------------------------

/// An indicator in a list of indicators, as it is written.
pub open spec fn indicator_item(state: AgIndicatorModel) -> Written {
    Written::Group(
        seq![reading::text_item(state.indicator.wire_text()), values_item(state.supported_values)],
    )
}

/// The names of indicators can stand in double quotes.
proof fn lemma_names(indicator: AgIndicator)
    ensures
        reading::quotable(indicator.wire_text()),
        laws::fits_line(indicator.wire_text()),
{
    reveal_strlit("service");
    reveal_strlit("call");
    reveal_strlit("callsetup");
    reveal_strlit("callheld");
    reveal_strlit("signal");
    reveal_strlit("roam");
    reveal_strlit("battchg");
}

/// An indicator in a list of indicators is read as the indicator, with its
/// values, whatever its current value is.
pub proof fn law_indicator_is_read(state: AgIndicatorModel)
    requires
        state.supported_values.finite(),
        state.supported_values.len() > 0,
    ensures
        indicator_item(state).writable(),
        indicator_item(state).wire() == utf8::encode_utf8(indicator::test_text(state)),
        indicator::indicator_of(indicator_item(state).meaning()) == Some(
            indicator::fresh(state.indicator, state.supported_values),
        ),
        laws::fits_line(indicator::test_text(state)),
{
    let name = state.indicator.wire_text();
    let values = state.supported_values;
    lemma_names(state.indicator);
    reading::lemma_text_item(name);
    lemma_values_read(values);
    let parts = seq![text::quoted(name), indicator::values_text(values)];
    let items = seq![reading::text_item(name), values_item(values)];
    assert forall|i: int| 0 <= i < parts.len() implies utf8::encode_utf8(#[trigger] parts[i])
        == items[i].wire() && items[i].writable() by {
        assert(i == 0 || i == 1);
    }
    lemma_group(parts, items);
    assert(parts.drop_last() =~= seq![text::quoted(name)]);
    assert(text::joined(parts.drop_last()) == text::quoted(name));
    assert(indicator::test_text(state) =~= "("@ + text::joined(parts) + ")"@);
    reading::lemma_meanings(items);
    let pair = at::laws::meaning_all(items);
    assert(pair[0] == items[0].meaning());
    assert(pair[1] == items[1].meaning());
    values::law_wire_names_round_trip(state.indicator);
    exchange::lemma_fits_quoted(name);
    assert forall|i: int| 0 <= i < parts.len() implies laws::fits_line(#[trigger] parts[i]) by {
        assert(i == 0 || i == 1);
    }
    exchange::lemma_fits_joined(parts);
    lemma_parenthesized(text::joined(parts));
}

/// What an indicator with any values, one or more, is written as for a list of
/// indicators is a parameter list with one parameter. That parameter is read
/// as the same indicator with the same values, reported and not yet set.
pub proof fn law_written_indicator_is_parsed(state: AgIndicatorModel, values: Seq<u32>)
    requires
        values.len() > 0,
        state.supported_values == values.to_set(),
    ensures
        ({
            let parameters = at::parameters_of(utf8::encode_utf8(indicator::test_text(state)));
            &&& parameters is Ok
            &&& parameters->Ok_0.len() == 1
            &&& indicator::indicator_of(parameters->Ok_0[0]) == Some(
                AgIndicatorModel {
                    indicator: state.indicator,
                    supported_values: values.to_set(),
                    current_status: 0,
                    enabled: true,
                },
            )
        }),
{
    vstd::seq_lib::seq_to_set_is_finite(values);
    assert(values.contains(values[0]));
    assert(values.to_set().contains(values[0]));
    law_indicator_is_read(state);
    let w = indicator_item(state);
    let items = seq![w];
    assert(items.last() == w);
    assert(items.drop_last() =~= seq![]);
    assert(at::laws::all_writable(items.drop_last()));
    assert(at::laws::meaning_all(items.drop_last()) =~= seq![]);
    at::laws::law_written_parameters_are_read(items);
}

} // verus!
