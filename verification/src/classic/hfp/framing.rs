//! Lines on the byte stream: commands end with a carriage return, responses
//! stand between two pairs of carriage return and line feed.

use vstd::prelude::*;
use vstd::utf8;
use crate::bytes;
use crate::models;
use crate::text;

verus! {

/// The bytes of a command.
pub open spec fn command_line(command: Seq<char>) -> Seq<u8> {
    utf8::encode_utf8(command).push(13)
}

/// The bytes of a response.
pub open spec fn response_line(response: Seq<char>) -> Seq<u8> {
    seq![13u8, 10u8] + utf8::encode_utf8(response) + seq![13u8, 10u8]
}

/// Frames a command.
pub fn command_bytes(command: &str) -> (r: Vec<u8>)
    ensures
        r@ == command_line(command@),
{
    let mut r = text::text_bytes(command);
    r.push(13);
    r
}

/// Frames a response.
pub fn response_bytes(response: &str) -> (r: Vec<u8>)
    ensures
        r@ == response_line(response@),
{
    let mut r: Vec<u8> = Vec::new();
    r.push(13);
    r.push(10);
    assert(r@ =~= seq![13u8, 10u8]);
    bytes::push_bytes(&mut r, response.as_bytes());
    r.push(13);
    r.push(10);
    assert(r@ =~= response_line(response@));
    r
}

/// What a buffer gives: its complete lines, and the bytes that are left.
#[verifier::ext_equal]
pub struct Lines {
    pub lines: Seq<Seq<u8>>,
    pub rest: Seq<u8>,
}

/// Lines with one more in front.
pub open spec fn preceded(line: Seq<u8>, lines: Lines) -> Lines {
    Lines { lines: seq![line] + lines.lines, rest: lines.rest }
}

/// The commands in a buffer.
pub open spec fn command_lines(buffer: Seq<u8>) -> Lines
    decreases buffer.len(),
{
    let n = text::run_without(buffer, 13) as int;
    if n >= buffer.len() {
        Lines { lines: seq![], rest: buffer }
    } else {
        preceded(buffer.take(n), command_lines(buffer.skip(n + 1)))
    }
}

/// How many bytes stand before the first carriage return with a line feed, or
/// all of them where there is none.
pub open spec fn run_before_pair(s: Seq<u8>) -> nat
    decreases s.len(),
{
    if s.len() < 2 {
        s.len()
    } else if s[0] == 13 && s[1] == 10 {
        0
    } else {
        1 + run_before_pair(s.skip(1))
    }
}

/// The responses in a buffer. Whatever stands before the pair that opens one
/// is dropped with it.
pub open spec fn response_lines(buffer: Seq<u8>) -> Lines
    decreases buffer.len(),
{
    let h = run_before_pair(buffer) as int;
    let after = buffer.skip(h + 2);
    let t = run_before_pair(after) as int;
    if h + 2 > buffer.len() || t + 2 > after.len() {
        Lines { lines: seq![], rest: buffer }
    } else {
        preceded(after.take(t), response_lines(after.skip(t + 2)))
    }
}

/// The first pair is where it is, and nowhere before.
pub proof fn lemma_run_before_pair(s: Seq<u8>)
    ensures
        run_before_pair(s) <= s.len(),
        run_before_pair(s) < s.len() ==> run_before_pair(s) + 2 <= s.len()
            && s[run_before_pair(s) as int] == 13 && s[run_before_pair(s) as int + 1] == 10,
        forall|i: int|
            #![trigger s[i]]
            0 <= i < run_before_pair(s) && i + 1 < s.len() ==> !(s[i] == 13 && s[i + 1] == 10),
    decreases s.len(),
{
    if s.len() >= 2 && !(s[0] == 13 && s[1] == 10) {
        let rest = s.skip(1);
        lemma_run_before_pair(rest);
        assert forall|i: int|
            #![trigger s[i]]
            0 <= i < run_before_pair(s) && i + 1 < s.len() implies !(s[i] == 13 && s[i + 1]
            == 10) by {
            if i > 0 {
                assert(rest[i - 1] == s[i]);
                assert(rest[i] == s[i + 1]);
            }
        }
        let n = run_before_pair(rest) as int;
        if n < rest.len() {
            assert(rest[n] == s[n + 1]);
            assert(rest[n + 1] == s[n + 2]);
        }
    }
}

/// A pair with none before it is the first.
pub proof fn lemma_run_before_pair_is(s: Seq<u8>, n: int)
    requires
        0 <= n <= s.len(),
        n < s.len() ==> n + 2 <= s.len() && s[n] == 13 && s[n + 1] == 10,
        forall|i: int|
            #![trigger s[i]]
            0 <= i < n && i + 1 < s.len() ==> !(s[i] == 13 && s[i + 1] == 10),
    ensures
        run_before_pair(s) == n,
    decreases n,
{
    if n > 0 && s.len() >= 2 {
        let rest = s.skip(1);
        assert(s[0] == s[0]);
        assert forall|i: int|
            #![trigger rest[i]]
            0 <= i < n - 1 && i + 1 < rest.len() implies !(rest[i] == 13 && rest[i + 1] == 10) by {
            assert(rest[i] == s[i + 1]);
            assert(rest[i + 1] == s[i + 2]);
        }
        lemma_run_before_pair_is(rest, n - 1);
    }
}

/// Counts the bytes before the first pair, from `from` on.
fn count_before_pair(s: &[u8], from: usize) -> (r: usize)
    requires
        from <= s@.len(),
    ensures
        r == run_before_pair(s@.skip(from as int)),
        from + r <= s@.len(),
        from + r < s@.len() ==> from + r + 2 <= s@.len(),
{
    let ghost rest = s@.skip(from as int);
    let mut n: usize = 0;
    while n < s.len() - from
        invariant
            from + n <= s@.len(),
            forall|i: int|
                #![trigger rest[i]]
                0 <= i < n && i + 1 < rest.len() ==> !(rest[i] == 13 && rest[i + 1] == 10),
        decreases s@.len() - from - n,
    {
        assert(rest[n as int] == s@[from + n]);
        if s.len() - (from + n) >= 2 && s[from + n] == 13 && s[from + n + 1] == 10 {
            proof {
                assert(rest[n + 1] == s@[from + n + 1]);
                lemma_run_before_pair_is(rest, n as int);
            }
            return n;
        }
        proof {
            if n + 1 < rest.len() {
                assert(rest[n + 1] == s@[from + n + 1]);
            }
        }
        n = n + 1;
    }
    proof {
        lemma_run_before_pair_is(rest, n as int);
    }
    n
}

/// Takes the complete responses out of a buffer, and leaves a partial one.
pub fn extract_response_lines(buffer: &mut Vec<u8>) -> (r: Vec<Vec<u8>>)
    ensures
        models::seq_views(r@) == response_lines(old(buffer)@).lines,
        final(buffer)@ == response_lines(old(buffer)@).rest,
{
    broadcast use models::lemma_seq_views_push;

    let ghost all = buffer@;
    let mut lines: Vec<Vec<u8>> = Vec::new();
    let mut at: usize = 0;
    proof {
        assert(models::seq_views(lines@) =~= seq![]);
        assert(all.skip(0) =~= all);
        assert(seq![] + response_lines(all).lines =~= response_lines(all).lines);
    }
    while at < buffer.len()
        invariant
            buffer@ == all,
            at <= all.len(),
            response_lines(all).rest == response_lines(all.skip(at as int)).rest,
            response_lines(all).lines == models::seq_views(lines@) + response_lines(
                all.skip(at as int),
            ).lines,
        decreases all.len() - at,
    {
        let ghost left = all.skip(at as int);
        let h: usize = count_before_pair(buffer, at);
        if at + h == buffer.len() {
            break;
        }
        let start: usize = at + h + 2;
        assert(left.skip(h + 2) =~= all.skip(start as int));
        let t: usize = count_before_pair(buffer, start);
        if start + t == buffer.len() {
            break;
        }
        let line = bytes::copy_range(buffer, start, start + t);
        let next: usize = start + t + 2;
        proof {
            let after = all.skip(start as int);
            assert(line@ =~= after.take(t as int));
            assert(after.skip(t + 2) =~= all.skip(next as int));
            assert(response_lines(left) == preceded(
                line@,
                response_lines(all.skip(next as int)),
            ));
            assert(models::seq_views(lines@) + (seq![line@] + response_lines(
                all.skip(next as int),
            ).lines) =~= models::seq_views(lines@).push(line@) + response_lines(
                all.skip(next as int),
            ).lines);
        }
        lines.push(line);
        at = next;
    }
    assert(response_lines(all.skip(at as int)) == (Lines {
        lines: seq![],
        rest: all.skip(at as int),
    }));
    let rest = bytes::copy_range(buffer, at, buffer.len());
    assert(rest@ =~= all.skip(at as int));
    assert(models::seq_views(lines@) + seq![] =~= models::seq_views(lines@));
    *buffer = rest;
    lines
}

/// Takes the complete commands out of a buffer, and leaves a partial one.
pub fn extract_command_lines(buffer: &mut Vec<u8>) -> (r: Vec<Vec<u8>>)
    ensures
        models::seq_views(r@) == command_lines(old(buffer)@).lines,
        final(buffer)@ == command_lines(old(buffer)@).rest,
{
    broadcast use models::lemma_seq_views_push;

    let ghost all = buffer@;
    let mut lines: Vec<Vec<u8>> = Vec::new();
    let mut at: usize = 0;
    proof {
        assert(models::seq_views(lines@) =~= seq![]);
        assert(all.skip(0) =~= all);
        assert(seq![] + command_lines(all).lines =~= command_lines(all).lines);
    }
    while at < buffer.len()
        invariant
            buffer@ == all,
            at <= all.len(),
            command_lines(all).rest == command_lines(all.skip(at as int)).rest,
            command_lines(all).lines == models::seq_views(lines@) + command_lines(
                all.skip(at as int),
            ).lines,
        decreases all.len() - at,
    {
        let ghost left = all.skip(at as int);
        let n: usize = text::count_without(buffer, at, 13);
        if at + n == buffer.len() {
            break;
        }
        let line = bytes::copy_range(buffer, at, at + n);
        let next: usize = at + n + 1;
        proof {
            assert(line@ =~= left.take(n as int));
            assert(left.skip(n + 1) =~= all.skip(next as int));
            assert(models::seq_views(lines@) + (seq![line@] + command_lines(
                all.skip(next as int),
            ).lines) =~= models::seq_views(lines@).push(line@) + command_lines(
                all.skip(next as int),
            ).lines);
        }
        lines.push(line);
        at = next;
    }
    assert(command_lines(all.skip(at as int)) == (Lines {
        lines: seq![],
        rest: all.skip(at as int),
    }));
    let rest = bytes::copy_range(buffer, at, buffer.len());
    assert(rest@ =~= all.skip(at as int));
    assert(models::seq_views(lines@) + seq![] =~= models::seq_views(lines@));
    *buffer = rest;
    lines
}

// ---------------------------------------------------------------------------
// Laws
// ---------------------------------------------------------------------------

/// The lines of a buffer, and those of another after it.
pub open spec fn continued(first: Lines, second: Lines) -> Lines {
    Lines { lines: first.lines + second.lines, rest: second.rest }
}

/// A command that is framed is the first line of what it starts, provided
/// that there is no carriage return in it.
pub proof fn law_command_is_framed(command: Seq<char>, rest: Seq<u8>)
    requires
        forall|i: int| 0 <= i < command.len() ==> #[trigger] command[i] != '\r',
    ensures
        command_lines(command_line(command) + rest) == preceded(
            utf8::encode_utf8(command),
            command_lines(rest),
        ),
{
    let bytes = utf8::encode_utf8(command);
    let all = command_line(command) + rest;
    assert(13u8 as char == '\r');
    text::laws::lemma_absent_byte(command, 13);
    assert forall|i: int| 0 <= i < bytes.len() implies all[i] != 13 by {
        assert(all[i] == bytes[i]);
    }
    text::lemma_run_without_is(all, 13, bytes.len() as int);
    assert(all.take(bytes.len() as int) =~= bytes);
    assert(all.skip(bytes.len() as int + 1) =~= rest);
}

/// A response that is framed is the first line of what it starts, provided
/// that there is no carriage return in it.
pub proof fn law_response_is_framed(response: Seq<char>, rest: Seq<u8>)
    requires
        forall|i: int| 0 <= i < response.len() ==> #[trigger] response[i] != '\r',
    ensures
        response_lines(response_line(response) + rest) == preceded(
            utf8::encode_utf8(response),
            response_lines(rest),
        ),
{
    let bytes = utf8::encode_utf8(response);
    let all = response_line(response) + rest;
    assert(all[0] == 13 && all[1] == 10);
    lemma_run_before_pair_is(all, 0);
    let after = all.skip(2);
    assert(after =~= bytes + (seq![13u8, 10u8] + rest));
    assert(13u8 as char == '\r');
    text::laws::lemma_absent_byte(response, 13);
    let n = bytes.len() as int;
    assert(after[n] == 13 && after[n + 1] == 10);
    assert forall|i: int|
        #![trigger after[i]]
        0 <= i < n && i + 1 < after.len() implies !(after[i] == 13 && after[i + 1] == 10) by {
        assert(after[i] == bytes[i]);
    }
    lemma_run_before_pair_is(after, n);
    assert(after.take(n) =~= bytes);
    assert(after.skip(n + 2) =~= rest);
}

/// Commands may arrive in pieces: what is left of the first piece goes before
/// the second.
pub proof fn law_commands_in_pieces(a: Seq<u8>, b: Seq<u8>)
    ensures
        command_lines(a + b) == continued(
            command_lines(a),
            command_lines(command_lines(a).rest + b),
        ),
    decreases a.len(),
{
    text::lemma_run_without(a, 13);
    let n = text::run_without(a, 13) as int;
    if n >= a.len() {
        assert(seq![] + command_lines(a + b).lines =~= command_lines(a + b).lines);
    } else {
        let all = a + b;
        assert forall|i: int| 0 <= i < n implies all[i] != 13 by {
            assert(all[i] == a[i]);
        }
        text::lemma_run_without_is(all, 13, n);
        assert(all.take(n) =~= a.take(n));
        assert(all.skip(n + 1) =~= a.skip(n + 1) + b);
        law_commands_in_pieces(a.skip(n + 1), b);
        let first = command_lines(a.skip(n + 1));
        let second = command_lines(first.rest + b);
        assert(seq![a.take(n)] + (first.lines + second.lines) =~= (seq![a.take(n)] + first.lines)
            + second.lines);
    }
}

/// Responses may arrive in pieces: what is left of the first piece goes before
/// the second.
pub proof fn law_responses_in_pieces(a: Seq<u8>, b: Seq<u8>)
    ensures
        response_lines(a + b) == continued(
            response_lines(a),
            response_lines(response_lines(a).rest + b),
        ),
    decreases a.len(),
{
    lemma_run_before_pair(a);
    let h = run_before_pair(a) as int;
    let after = a.skip(h + 2);
    let t = run_before_pair(after) as int;
    if h + 2 > a.len() || t + 2 > after.len() {
        assert(seq![] + response_lines(a + b).lines =~= response_lines(a + b).lines);
    } else {
        lemma_run_before_pair(after);
        let all = a + b;
        lemma_pair_stays(a, b, h);
        assert(all.skip(h + 2) =~= after + b);
        lemma_pair_stays(after, b, t);
        assert((after + b).take(t) =~= after.take(t));
        assert((after + b).skip(t + 2) =~= after.skip(t + 2) + b);
        law_responses_in_pieces(after.skip(t + 2), b);
        let first = response_lines(after.skip(t + 2));
        let second = response_lines(first.rest + b);
        assert(seq![after.take(t)] + (first.lines + second.lines) =~= (seq![after.take(t)]
            + first.lines) + second.lines);
    }
}

/// The first pair of a part is the first pair of the whole.
proof fn lemma_pair_stays(a: Seq<u8>, b: Seq<u8>, n: int)
    requires
        n == run_before_pair(a),
        n + 2 <= a.len(),
    ensures
        run_before_pair(a + b) == n,
{
    lemma_run_before_pair(a);
    let all = a + b;
    assert(all[n] == a[n] && all[n + 1] == a[n + 1]);
    assert forall|i: int|
        #![trigger all[i]]
        0 <= i < n && i + 1 < all.len() implies !(all[i] == 13 && all[i + 1] == 10) by {
        assert(all[i] == a[i]);
        assert(all[i + 1] == a[i + 1]);
    }
    lemma_run_before_pair_is(all, n);
}

} // verus!
