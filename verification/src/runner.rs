//! Driving a stream of records through the processor, and rendering the
//! resulting accounts as tabular text.

use vstd::prelude::*;
use vstd::string::StringExecFns;
use crate::account::Account;
use crate::errors::{MoneyParseError, RecordError};
use crate::moneys::Moneys;
use crate::processor::{LedgerView, Processor, spec_execute};
use crate::records::{
    all_digits, amount_body_start, amount_is_negative, amount_wf, digit_val, digits_value,
    frac_part, int_part, is_digit, lemma_dot_index, pad4, rounds_up, spec_magnitude,
    spec_parse_amount, spec_parse_moneys, Amount, Header, parse_header, parse_row, spec_header,
    spec_parse_row,
};

verus! {

/// The digit character of `d`.
pub open spec fn spec_digit_char(d: int) -> char {
    (48 + d) as char
}

/// The decimal digits of `n`, most significant first.
pub open spec fn spec_digits(n: int) -> Seq<char>
    decreases n,
{
    if n < 10 {
        seq![spec_digit_char(n)]
    } else {
        spec_digits(n / 10).push(spec_digit_char(n % 10))
    }
}

fn digit_str(d: u64) -> (r: &'static str)
    requires
        d < 10,
    ensures
        r@ == seq![spec_digit_char(d as int)],
{
    proof {
        reveal_strlit("0");
        reveal_strlit("1");
        reveal_strlit("2");
        reveal_strlit("3");
        reveal_strlit("4");
        reveal_strlit("5");
        reveal_strlit("6");
        reveal_strlit("7");
        reveal_strlit("8");
        reveal_strlit("9");
    }
    if d == 0 {
        "0"
    } else if d == 1 {
        "1"
    } else if d == 2 {
        "2"
    } else if d == 3 {
        "3"
    } else if d == 4 {
        "4"
    } else if d == 5 {
        "5"
    } else if d == 6 {
        "6"
    } else if d == 7 {
        "7"
    } else if d == 8 {
        "8"
    } else {
        "9"
    }
}

/// Appends the decimal digits of `n`.
fn append_digits(out: &mut String, n: u64)
    ensures
        final(out)@ == old(out)@ + spec_digits(n as int),
    decreases n,
{
    if n < 10 {
        out.append(digit_str(n));
        proof {
            assert(old(out)@ + seq![spec_digit_char(n as int)] =~= old(out)@ + spec_digits(
                n as int,
            ));
        }
    } else {
        append_digits(out, n / 10);
        out.append(digit_str(n % 10));
        proof {
            assert((old(out)@ + spec_digits(n as int / 10)) + seq![spec_digit_char(n as int % 10)]
                =~= old(out)@ + spec_digits(n as int));
        }
    }
}

/// The last four decimal digits of `f`.
pub open spec fn spec_frac4(f: int) -> Seq<char> {
    seq![
        spec_digit_char(f / 1000 % 10),
        spec_digit_char(f / 100 % 10),
        spec_digit_char(f / 10 % 10),
        spec_digit_char(f % 10),
    ]
}

/// A unit count as a decimal amount with exactly four places after the
/// point: the representation is exact, no floating value intervenes.
pub open spec fn spec_decimal(units: int) -> Seq<char> {
    spec_digits(units / 10000) + seq!['.'] + spec_frac4(units % 10000)
}

/// Appends a money value as a decimal amount with four places.
fn append_decimal(out: &mut String, m: Moneys)
    ensures
        final(out)@ == old(out)@ + spec_decimal(m.0 as int),
{
    append_digits(out, m.0 / 10000);
    out.append(".");
    let f = m.0 % 10000;
    out.append(digit_str(f / 1000 % 10));
    out.append(digit_str(f / 100 % 10));
    out.append(digit_str(f / 10 % 10));
    out.append(digit_str(f % 10));
    proof {
        reveal_strlit(".");
        assert(old(out)@ + spec_digits(m.0 as int / 10000) + "."@ + seq![
            spec_digit_char(f as int / 1000 % 10),
        ] + seq![spec_digit_char(f as int / 100 % 10)] + seq![spec_digit_char(f as int / 10 % 10)]
            + seq![spec_digit_char(f as int % 10)] =~= old(out)@ + spec_decimal(m.0 as int));
    }
}

pub open spec fn spec_bool_str(b: bool) -> Seq<char> {
    if b {
        "true"@
    } else {
        "false"@
    }
}

/// One output record: client, available, held, total and locked flag,
/// with every amount written to exactly four decimal places and the total
/// the exact sum of available and held.
pub open spec fn spec_render_account(a: Account) -> Seq<char> {
    spec_digits(a.client as int) + seq![','] + spec_decimal(a.available.0 as int) + seq![',']
        + spec_decimal(a.held.0 as int) + seq![','] + spec_decimal(a.available.0 + a.held.0)
        + seq![','] + spec_bool_str(a.locked) + seq!['\n']
}

fn append_account(out: &mut String, a: &Account)
    requires
        a.valid(),
    ensures
        final(out)@ == old(out)@ + spec_render_account(*a),
{
    append_digits(out, a.client as u64);
    out.append(",");
    append_decimal(out, a.available);
    out.append(",");
    append_decimal(out, a.held);
    out.append(",");
    let total = Moneys(a.available.0 + a.held.0);
    append_decimal(out, total);
    out.append(",");
    if a.locked {
        out.append("true");
    } else {
        out.append("false");
    }
    out.append("\n");
    proof {
        reveal_strlit(",");
        reveal_strlit("\n");
        assert(old(out)@ + spec_digits(a.client as int) + ","@ + spec_decimal(a.available.0 as int)
            + ","@ + spec_decimal(a.held.0 as int) + ","@ + spec_decimal(
            a.available.0 + a.held.0,
        ) + ","@ + spec_bool_str(a.locked) + "\n"@ =~= old(out)@ + spec_render_account(*a));
    }
}

/// The output records of a sequence of accounts, in order.
pub open spec fn spec_render_rows(accounts: Seq<Account>) -> Seq<char>
    decreases accounts.len(),
{
    if accounts.len() == 0 {
        Seq::empty()
    } else {
        spec_render_rows(accounts.drop_last()) + spec_render_account(accounts.last())
    }
}

/// The whole account table: a header row, then one record per account.
pub open spec fn spec_render_accounts(accounts: Seq<Account>) -> Seq<char> {
    "client,available,held,total,locked\n"@ + spec_render_rows(accounts)
}

/// Renders the account table.
pub fn render_accounts(accounts: &Vec<Account>) -> (r: String)
    requires
        forall|i: int| 0 <= i < accounts@.len() ==> (#[trigger] accounts@[i]).valid(),
    ensures
        r@ == spec_render_accounts(accounts@),
{
    let mut out = String::new();
    out.append("client,available,held,total,locked\n");
    let n = accounts.len();
    let mut i: usize = 0;
    while i < n
        invariant
            i <= n,
            n == accounts@.len(),
            forall|j: int| 0 <= j < accounts@.len() ==> (#[trigger] accounts@[j]).valid(),
            out@ == "client,available,held,total,locked\n"@ + spec_render_rows(
                accounts@.subrange(0, i as int),
            ),
        decreases n - i,
    {
        append_account(&mut out, &accounts[i]);
        proof {
            assert(accounts@.subrange(0, i as int + 1).drop_last() =~= accounts@.subrange(
                0,
                i as int,
            ));
            assert(("client,available,held,total,locked\n"@ + spec_render_rows(
                accounts@.subrange(0, i as int),
            )) + spec_render_account(accounts@[i as int]) =~= "client,available,held,total,locked\n"@
                + spec_render_rows(accounts@.subrange(0, i as int + 1)));
        }
        i = i + 1;
    }
    proof {
        assert(accounts@.subrange(0, n as int) =~= accounts@);
    }
    out
}

/// Rendered digits are digits.
pub proof fn lemma_spec_digits_are_digits(n: int)
    requires
        n >= 0,
    ensures
        all_digits(spec_digits(n)),
        spec_digits(n).len() >= 1,
    decreases n,
{
    if n >= 10 {
        lemma_spec_digits_are_digits(n / 10);
        let s = spec_digits(n / 10);
        let p = s.push(spec_digit_char(n % 10));
        assert forall|i: int| 0 <= i < p.len() implies is_digit(#[trigger] p[i]) by {
            if i < s.len() {
                assert(p[i] == s[i]);
            }
        }
    }
}

/// Rendering digits and reading them back gives the number itself.
pub proof fn lemma_digits_value_of_spec_digits(n: int)
    requires
        n >= 0,
    ensures
        digits_value(spec_digits(n)) == n,
    decreases n,
{
    reveal_with_fuel(digits_value, 3);
    if n < 10 {
        assert(spec_digits(n).drop_last() =~= Seq::<char>::empty());
        assert(digits_value(Seq::<char>::empty()) == 0);
        assert(digits_value(spec_digits(n)) == digits_value(spec_digits(n).drop_last()) * 10
            + digit_val(spec_digits(n).last()));
    } else {
        lemma_digits_value_of_spec_digits(n / 10);
        assert(spec_digits(n).drop_last() =~= spec_digits(n / 10));
        assert(spec_digits(n).last() == spec_digit_char(n % 10));
    }
}

/// Reading a rendered amount gives back exactly the value that was
/// rendered: `parse` and the four-place decimal form are mutually inverse
/// for every representable money value.
#[verifier::rlimit(100)]
pub proof fn lemma_parse_render_round_trip(m: Moneys)
    requires
        m.valid(),
    ensures
        spec_parse_moneys(spec_decimal(m.0 as int)) == Ok::<Moneys, MoneyParseError>(m),
{
    let u = m.0 as int;
    let s = spec_decimal(u);
    let d = spec_digits(u / 10000);
    let f = spec_frac4(u % 10000);
    lemma_spec_digits_are_digits(u / 10000);
    lemma_digits_value_of_spec_digits(u / 10000);
    assert(s[0] == d[0]);
    assert(is_digit(s[0]));
    assert(amount_body_start(s) == 0);
    assert(!amount_is_negative(s));
    let body = s.subrange(amount_body_start(s), s.len() as int);
    assert(body =~= s);
    assert forall|j: int| 0 <= j < d.len() implies s[j] != '.' by {
        assert(s[j] == d[j]);
        assert(is_digit(d[j]));
    }
    assert(s[d.len() as int] == '.');
    lemma_dot_index(s, d.len() as int);
    assert(int_part(s) =~= d);
    assert(frac_part(s) =~= f);
    assert(f.len() == 4);
    assert(all_digits(f)) by {
        assert(is_digit(f[0]));
        assert(is_digit(f[1]));
        assert(is_digit(f[2]));
        assert(is_digit(f[3]));
    }
    assert(amount_wf(s));
    assert(pad4(f) =~= f);
    let fv = u % 10000;
    assert(digits_value(f) == fv) by {
        reveal_with_fuel(digits_value, 6);
        assert(f.drop_last() =~= seq![
            spec_digit_char(fv / 1000 % 10),
            spec_digit_char(fv / 100 % 10),
            spec_digit_char(fv / 10 % 10),
        ]);
        assert(f.drop_last().drop_last() =~= seq![
            spec_digit_char(fv / 1000 % 10),
            spec_digit_char(fv / 100 % 10),
        ]);
        assert(f.drop_last().drop_last().drop_last() =~= seq![spec_digit_char(fv / 1000 % 10)]);
        assert(f.drop_last().drop_last().drop_last().drop_last() =~= Seq::<char>::empty());
        assert(digits_value(f) == ((fv / 1000 % 10 * 10 + fv / 100 % 10) * 10 + fv / 10 % 10) * 10
            + fv % 10);
    }
    assert(!rounds_up(f));
    assert(spec_magnitude(s) == (u / 10000) * 10000 + u % 10000);
    assert(spec_magnitude(s) == u);
    assert(spec_parse_amount(s) == Some(Amount::Units(m.0)));
}

/// What replaying data records does: each record in turn is read and, if
/// well formed, run against the ledger, its command-level failures
/// skipped; the first malformed record stops the run, reporting the
/// ledger as it stood before that record.
pub open spec fn spec_replay(v: LedgerView, h: Header, rows: Seq<Vec<String>>) -> Result<
    LedgerView,
    (LedgerView, RecordError),
>
    decreases rows.len(),
{
    if rows.len() == 0 {
        Ok(v)
    } else {
        match spec_parse_row(h, rows[0]@) {
            Err(e) => Err((v, e)),
            Ok(cmd) => spec_replay(spec_execute(v, cmd), h, rows.subrange(1, rows.len() as int)),
        }
    }
}

/// What a whole run does: the first row names the columns, the rest are
/// replayed in order.
pub open spec fn spec_run_processor(v: LedgerView, rows: Seq<Vec<String>>) -> Result<
    LedgerView,
    (LedgerView, RecordError),
> {
    if rows.len() == 0 {
        Ok(v)
    } else {
        spec_replay(v, spec_header(rows[0]@), rows.subrange(1, rows.len() as int))
    }
}

/// Streams rows of cells through the processor: the first row is the
/// header, every later row one command. A well-formed but invalid command
/// is skipped and processing continues; the first malformed record aborts
/// the run with its cause, leaving the commands before it applied.
pub fn run_processor(processor: &mut Processor, rows: &Vec<Vec<String>>) -> (r: Result<
    (),
    RecordError,
>)
    requires
        old(processor)@.wf(),
    ensures
        final(processor)@.wf(),
        match spec_run_processor(old(processor)@, rows@) {
            Ok(v) => r == Ok::<(), RecordError>(()) && final(processor)@ == v,
            Err((v, e)) => r == Err::<(), RecordError>(e) && final(processor)@ == v,
        },
{
    let n = rows.len();
    if n == 0 {
        return Ok(());
    }
    let header = parse_header(&rows[0]);
    let mut i: usize = 1;
    while i < n
        invariant
            1 <= i <= n,
            n == rows@.len(),
            processor@.wf(),
            header == spec_header(rows@[0]@),
            spec_replay(processor@, header, rows@.subrange(i as int, n as int)) == spec_replay(
                old(processor)@,
                header,
                rows@.subrange(1, n as int),
            ),
        decreases n - i,
    {
        match parse_row(&header, &rows[i]) {
            Err(e) => {
                return Err(e);
            },
            Ok(cmd) => {
                let _ = processor.execute(&cmd);
                proof {
                    assert(rows@.subrange(i as int, n as int).subrange(1, n - i) =~= rows@.subrange(
                        i as int + 1,
                        n as int,
                    ));
                }
            },
        }
        i = i + 1;
    }
    proof {
        assert(rows@.subrange(n as int, n as int) =~= Seq::<Vec<String>>::empty());
    }
    Ok(())
}

} // verus!
