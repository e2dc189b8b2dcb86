//! Reading the tabular command records: the field grammars (identifiers,
//! decimal amounts, command names), the header mapping, and the command
//! values they yield.

use vstd::prelude::*;
use crate::account::ClientId;
use crate::errors::{LedgerError, MoneyParseError, RecordError};
use crate::moneys::{Moneys, MAX_UNITS};
use crate::processor::TransactionId;

verus! {

/// The five kinds of command a record may carry.
#[derive(Debug, Clone, Copy, PartialEq, Eq, Structural)]
pub enum CommandType {
    Deposit,
    Withdrawal,
    Dispute,
    Resolve,
    Chargeback,
}

/// A decimal amount as read from a record, rounded half away from zero to
/// four decimal places. Reading keeps the two out-of-range outcomes apart
/// so that the processor can reject them per command, exactly as it
/// rejects a missing amount.
#[derive(Debug, Clone, Copy, PartialEq, Eq, Structural)]
pub enum Amount {
    /// A representable value: `units <= MAX_UNITS`.
    Units(u64),
    /// The amount rounds to a negative value.
    Negative,
    /// The amount rounds past `MAX_UNITS`.
    TooBig,
}

/// One well-formed command. `amount` is required for deposits and
/// withdrawals and ignored for the dispute life-cycle commands, which
/// recover the amount from the referenced transaction instead.
#[derive(Debug, Clone, Copy, PartialEq, Eq, Structural)]
pub struct Command {
    pub command_type: CommandType,
    pub client: ClientId,
    pub tx: TransactionId,
    pub amount: Option<Amount>,
}

/// Digit strings are read exactly up to this value; a larger one is only
/// tracked as lying above the cap. The cap stands far above every
/// identifier and money bound, so nothing that matters is lost.
pub const UINT_CAP: u64 = 10_000_000_000_000_000;

/// A decimal digit character.
pub open spec fn is_digit(c: char) -> bool {
    48 <= c as int && c as int <= 57
}

/// The numeric value of a digit character.
pub open spec fn digit_val(c: char) -> int {
    c as int - 48
}

pub open spec fn all_digits(s: Seq<char>) -> bool {
    forall|i: int| 0 <= i < s.len() ==> is_digit(#[trigger] s[i])
}

/// The number a digit string denotes, most significant digit first.
pub open spec fn digits_value(s: Seq<char>) -> int
    decreases s.len(),
{
    if s.len() == 0 {
        0
    } else {
        digits_value(s.drop_last()) * 10 + digit_val(s.last())
    }
}

pub proof fn lemma_digits_value_nonneg(s: Seq<char>)
    requires
        all_digits(s),
    ensures
        digits_value(s) >= 0,
    decreases s.len(),
{
    if s.len() > 0 {
        assert(all_digits(s.drop_last()));
        lemma_digits_value_nonneg(s.drop_last());
    }
}

/// Reading one more digit multiplies the prefix value by ten and adds it.
pub proof fn lemma_digits_value_step(s: Seq<char>, from: int, i: int)
    requires
        0 <= from <= i < s.len(),
    ensures
        digits_value(s.subrange(from, i + 1)) == digits_value(s.subrange(from, i)) * 10
            + digit_val(s[i]),
{
    assert(s.subrange(from, i + 1).drop_last() =~= s.subrange(from, i));
    assert(s.subrange(from, i + 1).last() == s[i]);
}

/// Reads the digits of `s` between `from` and `to` as a number. Values
/// beyond `UINT_CAP` are reported as some number above the cap.
fn parse_digits_range(s: &str, from: usize, to: usize) -> (r: Option<u64>)
    requires
        from <= to,
        to <= s@.len(),
    ensures
        ({
            let d = s@.subrange(from as int, to as int);
            match r {
                None => !all_digits(d),
                Some(v) => all_digits(d) && (digits_value(d) <= UINT_CAP ==> v == digits_value(d))
                    && (digits_value(d) > UINT_CAP ==> v > UINT_CAP),
            }
        }),
{
    let mut i = from;
    let mut acc: u64 = 0;
    let mut big = false;
    while i < to
        invariant
            from <= i <= to,
            to <= s@.len(),
            all_digits(s@.subrange(from as int, i as int)),
            !big ==> acc == digits_value(s@.subrange(from as int, i as int)) && acc <= UINT_CAP,
            big ==> digits_value(s@.subrange(from as int, i as int)) > UINT_CAP && acc > UINT_CAP,
        decreases to - i,
    {
        let c = s.get_char(i);
        let cv = c as u32;
        if cv < 48 || cv > 57 {
            proof {
                assert(s@.subrange(from as int, to as int)[i - from as int] == s@[i as int]);
            }
            return None;
        }
        let d = (cv - 48) as u64;
        proof {
            lemma_digits_value_step(s@, from as int, i as int);
            assert forall|j: int|
                0 <= j < i + 1 - from implies is_digit(
                #[trigger] s@.subrange(from as int, i as int + 1)[j],
            ) by {
                if j < i - from {
                    assert(s@.subrange(from as int, i as int)[j] == s@[from + j]);
                }
            }
            if big {
                lemma_digits_value_nonneg(s@.subrange(from as int, i as int));
            }
        }
        if !big {
            let na = acc * 10 + d;
            acc = na;
            if na > UINT_CAP {
                big = true;
            }
        }
        i = i + 1;
    }
    Some(acc)
}

/// Where the digits of an unsigned field begin: a single leading plus
/// sign is accepted.
pub open spec fn uint_body_start(s: Seq<char>) -> int {
    if s.len() > 0 && s[0] == '+' {
        1
    } else {
        0
    }
}

/// What an unsigned identifier field denotes: its digits' value, or
/// nothing when the field is empty or holds any non-digit.
pub open spec fn spec_parse_uint(s: Seq<char>) -> Option<int> {
    let body = s.subrange(uint_body_start(s), s.len() as int);
    if body.len() > 0 && all_digits(body) {
        Some(digits_value(body))
    } else {
        None
    }
}

/// What the client field denotes, when it fits a client id.
pub open spec fn spec_parse_client(s: Seq<char>) -> Option<ClientId> {
    match spec_parse_uint(s) {
        None => None,
        Some(v) => if v <= u16::MAX as int {
            Some(v as u16)
        } else {
            None
        },
    }
}

/// What the tx field denotes, when it fits a transaction id.
pub open spec fn spec_parse_tx(s: Seq<char>) -> Option<TransactionId> {
    match spec_parse_uint(s) {
        None => None,
        Some(v) => if v <= u32::MAX as int {
            Some(v as u32)
        } else {
            None
        },
    }
}

/// Reads a client id field.
pub fn parse_client(s: &str) -> (r: Option<ClientId>)
    ensures
        r == spec_parse_client(s@),
{
    let n = s.unicode_len();
    let start: usize = if n > 0 && s.get_char(0) == '+' {
        1
    } else {
        0
    };
    if start == n {
        return None;
    }
    match parse_digits_range(s, start, n) {
        None => None,
        Some(v) => if v <= 65535 {
            Some(v as u16)
        } else {
            None
        },
    }
}

/// Reads a transaction id field.
pub fn parse_tx(s: &str) -> (r: Option<TransactionId>)
    ensures
        r == spec_parse_tx(s@),
{
    let n = s.unicode_len();
    let start: usize = if n > 0 && s.get_char(0) == '+' {
        1
    } else {
        0
    };
    if start == n {
        return None;
    }
    match parse_digits_range(s, start, n) {
        None => None,
        Some(v) => if v <= 4294967295 {
            Some(v as u32)
        } else {
            None
        },
    }
}

/// Where the digits of an amount begin: one leading sign is accepted.
pub open spec fn amount_body_start(s: Seq<char>) -> int {
    if s.len() > 0 && (s[0] == '+' || s[0] == '-') {
        1
    } else {
        0
    }
}

pub open spec fn amount_is_negative(s: Seq<char>) -> bool {
    s.len() > 0 && s[0] == '-'
}

/// The index of the first decimal point, or the length when there is none.
pub open spec fn dot_index(s: Seq<char>) -> int
    decreases s.len(),
{
    if s.len() == 0 {
        0
    } else if s[0] == '.' {
        0
    } else {
        1 + dot_index(s.subrange(1, s.len() as int))
    }
}

/// `dot_index` is the position of the first decimal point.
pub proof fn lemma_dot_index(s: Seq<char>, k: int)
    requires
        0 <= k <= s.len(),
        forall|j: int| 0 <= j < k ==> s[j] != '.',
        k < s.len() ==> s[k] == '.',
        k == s.len() ==> forall|j: int| 0 <= j < s.len() ==> s[j] != '.',
    ensures
        dot_index(s) == k,
    decreases k,
{
    if k == 0 {
    } else {
        let tail = s.subrange(1, s.len() as int);
        assert forall|j: int| 0 <= j < k - 1 implies tail[j] != '.' by {
            assert(tail[j] == s[j + 1]);
        }
        if k - 1 == tail.len() {
            assert forall|j: int| 0 <= j < tail.len() implies tail[j] != '.' by {
                assert(tail[j] == s[j + 1]);
            }
        }
        lemma_dot_index(tail, k - 1);
    }
}

/// The whole-unit digits of an amount body.
pub open spec fn int_part(body: Seq<char>) -> Seq<char> {
    body.subrange(0, dot_index(body))
}

/// The fractional digits of an amount body.
pub open spec fn frac_part(body: Seq<char>) -> Seq<char> {
    if dot_index(body) < body.len() {
        body.subrange(dot_index(body) + 1, body.len() as int)
    } else {
        Seq::empty()
    }
}

/// A well-formed amount body: digits around at most one decimal point,
/// with at least one digit somewhere.
pub open spec fn amount_wf(body: Seq<char>) -> bool {
    all_digits(int_part(body)) && all_digits(frac_part(body)) && int_part(body).len() + frac_part(
        body,
    ).len() > 0
}

/// Ten to the `n`th power.
pub open spec fn pow10(n: nat) -> int
    decreases n,
{
    if n == 0 {
        1
    } else {
        10 * pow10((n - 1) as nat)
    }
}

/// A digit string never reaches ten to its own length.
pub proof fn lemma_digits_value_bound(s: Seq<char>)
    requires
        all_digits(s),
    ensures
        0 <= digits_value(s) < pow10(s.len()),
    decreases s.len(),
{
    if s.len() > 0 {
        assert(all_digits(s.drop_last()));
        lemma_digits_value_bound(s.drop_last());
    }
}

/// Appended zero digits scale a digit string's value by a power of ten.
pub proof fn lemma_digits_value_pad(f: Seq<char>, j: nat)
    ensures
        digits_value(f + Seq::new(j, |i: int| '0')) == digits_value(f) * pow10(j),
    decreases j,
{
    if j == 0 {
        assert(f + Seq::new(0, |i: int| '0') =~= f);
    } else {
        let padded = f + Seq::new(j, |i: int| '0');
        assert(padded.drop_last() =~= f + Seq::new((j - 1) as nat, |i: int| '0'));
        assert(padded.last() == '0');
        lemma_digits_value_pad(f, (j - 1) as nat);
        assert(digit_val('0') == 0);
        assert(digits_value(padded) == digits_value(f) * pow10((j - 1) as nat) * 10);
        assert(digits_value(f) * pow10((j - 1) as nat) * 10 == digits_value(f) * (pow10(
            (j - 1) as nat,
        ) * 10)) by (nonlinear_arith);
        assert(pow10(j) == 10 * pow10((j - 1) as nat));
    }
}

/// The first four fractional digits, filled out with zeros.
pub open spec fn pad4(f: Seq<char>) -> Seq<char> {
    if f.len() >= 4 {
        f.subrange(0, 4)
    } else {
        f + Seq::new((4 - f.len()) as nat, |i: int| '0')
    }
}

/// Whether the fifth fractional digit rounds the value away from zero.
pub open spec fn rounds_up(f: Seq<char>) -> bool {
    f.len() > 4 && digit_val(f[4]) >= 5
}

/// The unit count an amount body denotes, rounded half away from zero to
/// four decimal places.
pub open spec fn spec_magnitude(body: Seq<char>) -> int {
    digits_value(int_part(body)) * 10000 + digits_value(pad4(frac_part(body))) + if rounds_up(
        frac_part(body),
    ) {
        1int
    } else {
        0int
    }
}

/// What an amount field denotes: nothing when it is not a decimal number
/// at all, and otherwise its rounded value, kept apart by whether it is
/// negative, representable, or too large.
pub open spec fn spec_parse_amount(s: Seq<char>) -> Option<Amount> {
    let body = s.subrange(amount_body_start(s), s.len() as int);
    if !amount_wf(body) {
        None
    } else if amount_is_negative(s) && spec_magnitude(body) > 0 {
        Some(Amount::Negative)
    } else if spec_magnitude(body) > MAX_UNITS as int {
        Some(Amount::TooBig)
    } else {
        Some(Amount::Units(spec_magnitude(body) as u64))
    }
}

/// The first decimal point at or after `start`, or the length.
fn find_dot(s: &str, start: usize) -> (r: usize)
    requires
        start <= s@.len(),
    ensures
        start <= r <= s@.len(),
        forall|k: int| start <= k < r ==> s@[k] != '.',
        r < s@.len() ==> s@[r as int] == '.',
{
    let n = s.unicode_len();
    let mut j = start;
    while j < n
        invariant
            start <= j <= n,
            n == s@.len(),
            forall|k: int| start <= k < j ==> s@[k] != '.',
        decreases n - j,
    {
        if s.get_char(j) == '.' {
            return j;
        }
        j = j + 1;
    }
    j
}

/// Reads an amount field.
#[verifier::rlimit(100)]
pub fn parse_amount(s: &str) -> (r: Option<Amount>)
    ensures
        r == spec_parse_amount(s@),
        match r {
            Some(Amount::Units(u)) => u <= MAX_UNITS,
            _ => true,
        },
{
    let n = s.unicode_len();
    let mut start: usize = 0;
    let mut neg = false;
    if n > 0 {
        let c0 = s.get_char(0);
        if c0 == '-' {
            start = 1;
            neg = true;
        } else if c0 == '+' {
            start = 1;
        }
    }
    let ghost body = s@.subrange(start as int, n as int);
    let dot = find_dot(s, start);
    proof {
        lemma_dot_index(body, dot - start);
        assert(int_part(body) =~= s@.subrange(start as int, dot as int));
        if dot < n {
            assert(frac_part(body) =~= s@.subrange(dot as int + 1, n as int));
        } else {
            assert(frac_part(body) =~= Seq::<char>::empty());
        }
    }
    // whole-unit digits
    let vi = match parse_digits_range(s, start, dot) {
        None => {
            return None;
        },
        Some(v) => v,
    };
    // fractional digits
    let flen: usize = if dot < n {
        n - (dot + 1)
    } else {
        0
    };
    if dot < n {
        if parse_digits_range(s, dot + 1, n).is_none() {
            return None;
        }
    }
    if dot - start == 0 && flen == 0 {
        return None;
    }
    // the first four fractional digits, scaled out to four places
    let k: usize = if flen >= 4 {
        4
    } else {
        flen
    };
    let v4: u64 = if dot < n {
        match parse_digits_range(s, dot + 1, dot + 1 + k) {
            Some(v) => {
                proof {
                    let full = s@.subrange(dot as int + 1, n as int);
                    let pre = s@.subrange(dot as int + 1, dot as int + 1 + k as int);
                    assert forall|j: int| 0 <= j < pre.len() implies is_digit(
                        #[trigger] pre[j],
                    ) by {
                        assert(pre[j] == full[j]);
                    }
                    assert(pre =~= frac_part(body).subrange(0, k as int));
                    lemma_digits_value_bound(pre);
                }
                v
            },
            None => {
                proof {
                    let full = s@.subrange(dot as int + 1, n as int);
                    let pre = s@.subrange(dot as int + 1, dot as int + 1 + k as int);
                    assert forall|j: int| 0 <= j < pre.len() implies is_digit(
                        #[trigger] pre[j],
                    ) by {
                        assert(pre[j] == full[j]);
                    }
                    assert(false);
                }
                return None;
            },
        }
    } else {
        0
    };
    let scale: u64 = if k == 0 {
        10000
    } else if k == 1 {
        1000
    } else if k == 2 {
        100
    } else if k == 3 {
        10
    } else {
        1
    };
    proof {
        reveal_with_fuel(pow10, 5);
        let f = frac_part(body);
        if f.len() >= 4 {
            assert(pad4(f) =~= f.subrange(0, 4));
        } else {
            lemma_digits_value_pad(f.subrange(0, k as int), (4 - k) as nat);
            assert(f.subrange(0, k as int) =~= f);
            assert(pad4(f) =~= f.subrange(0, k as int) + Seq::new((4 - k) as nat, |i: int| '0'));
        }
        lemma_digits_value_bound(pad4(f));
    }
    let frac4: u64 = v4 * scale;
    let ru: u64 = if flen > 4 {
        let c5 = s.get_char(dot + 1 + 4);
        proof {
            assert(frac_part(body)[4] == s@[dot as int + 5]);
        }
        if (c5 as u32) >= 53 {
            1
        } else {
            0
        }
    } else {
        0
    };
    proof {
        lemma_digits_value_nonneg(int_part(body));
        lemma_digits_value_nonneg(pad4(frac_part(body)));
    }
    if vi > 10_000_000_000 {
        // the whole units alone exceed the money bound
        if neg {
            Some(Amount::Negative)
        } else {
            Some(Amount::TooBig)
        }
    } else {
        let mag: u64 = vi * 10000 + frac4 + ru;
        if neg && mag > 0 {
            Some(Amount::Negative)
        } else if mag > MAX_UNITS {
            Some(Amount::TooBig)
        } else {
            Some(Amount::Units(mag))
        }
    }
}

/// Character-for-character string equality.
fn str_eq(a: &str, b: &str) -> (r: bool)
    ensures
        r == (a@ == b@),
{
    let an = a.unicode_len();
    let bn = b.unicode_len();
    if an != bn {
        return false;
    }
    let mut i: usize = 0;
    while i < an
        invariant
            i <= an,
            an == a@.len(),
            an == b@.len(),
            forall|k: int| 0 <= k < i ==> a@[k] == b@[k],
        decreases an - i,
    {
        if a.get_char(i) != b.get_char(i) {
            return false;
        }
        i = i + 1;
    }
    proof {
        assert(a@ =~= b@);
    }
    true
}

/// What the type field names, when it names a command.
pub open spec fn spec_command_type(s: Seq<char>) -> Option<CommandType> {
    if s == "deposit"@ {
        Some(CommandType::Deposit)
    } else if s == "withdrawal"@ {
        Some(CommandType::Withdrawal)
    } else if s == "dispute"@ {
        Some(CommandType::Dispute)
    } else if s == "resolve"@ {
        Some(CommandType::Resolve)
    } else if s == "chargeback"@ {
        Some(CommandType::Chargeback)
    } else {
        None
    }
}

/// Reads a type field; the five command names are case-sensitive.
pub fn parse_command_type(s: &str) -> (r: Option<CommandType>)
    ensures
        r == spec_command_type(s@),
{
    if str_eq(s, "deposit") {
        Some(CommandType::Deposit)
    } else if str_eq(s, "withdrawal") {
        Some(CommandType::Withdrawal)
    } else if str_eq(s, "dispute") {
        Some(CommandType::Dispute)
    } else if str_eq(s, "resolve") {
        Some(CommandType::Resolve)
    } else if str_eq(s, "chargeback") {
        Some(CommandType::Chargeback)
    } else {
        None
    }
}

/// Where each named column stands in a header row. A column the header
/// does not name is absent; a record that then needs it is malformed.
#[derive(Debug, Clone, Copy, PartialEq, Eq, Structural)]
pub struct Header {
    pub type_idx: Option<usize>,
    pub client_idx: Option<usize>,
    pub tx_idx: Option<usize>,
    pub amount_idx: Option<usize>,
}

/// The first column with the given name, if any.
pub open spec fn spec_find_column(row: Seq<String>, name: Seq<char>) -> Option<int>
    decreases row.len(),
{
    if row.len() == 0 {
        None
    } else if row[0]@ == name {
        Some(0int)
    } else {
        match spec_find_column(row.subrange(1, row.len() as int), name) {
            None => None,
            Some(i) => Some(i + 1),
        }
    }
}

pub open spec fn spec_opt_idx(o: Option<int>) -> Option<usize> {
    match o {
        None => None,
        Some(i) => Some(i as usize),
    }
}

/// What a header row denotes: the position of each known column.
pub open spec fn spec_header(row: Seq<String>) -> Header {
    Header {
        type_idx: spec_opt_idx(spec_find_column(row, "type"@)),
        client_idx: spec_opt_idx(spec_find_column(row, "client"@)),
        tx_idx: spec_opt_idx(spec_find_column(row, "tx"@)),
        amount_idx: spec_opt_idx(spec_find_column(row, "amount"@)),
    }
}

/// `spec_find_column` is the first match.
pub proof fn lemma_find_column(row: Seq<String>, name: Seq<char>, k: int)
    requires
        0 <= k <= row.len(),
        forall|j: int| 0 <= j < k ==> row[j]@ != name,
        k < row.len() ==> row[k]@ == name,
    ensures
        k < row.len() ==> spec_find_column(row, name) == Some(k),
        k == row.len() ==> spec_find_column(row, name) is None,
    decreases k,
{
    if k == 0 {
    } else {
        let tail = row.subrange(1, row.len() as int);
        assert forall|j: int| 0 <= j < k - 1 implies tail[j]@ != name by {
            assert(tail[j] == row[j + 1]);
        }
        lemma_find_column(tail, name, k - 1);
    }
}

fn find_column(row: &Vec<String>, name: &str) -> (r: Option<usize>)
    ensures
        r == spec_opt_idx(spec_find_column(row@, name@)),
{
    let n = row.len();
    let mut i: usize = 0;
    while i < n
        invariant
            i <= n,
            n == row@.len(),
            forall|j: int| 0 <= j < i ==> row@[j]@ != name@,
        decreases n - i,
    {
        if str_eq(row[i].as_str(), name) {
            proof {
                lemma_find_column(row@, name@, i as int);
            }
            return Some(i);
        }
        i = i + 1;
    }
    proof {
        lemma_find_column(row@, name@, n as int);
    }
    None
}

/// Reads a header row.
pub fn parse_header(row: &Vec<String>) -> (r: Header)
    ensures
        r == spec_header(row@),
{
    Header {
        type_idx: find_column(row, "type"),
        client_idx: find_column(row, "client"),
        tx_idx: find_column(row, "tx"),
        amount_idx: find_column(row, "amount"),
    }
}

/// The cell a column holds in this record, if the column exists and the
/// record is long enough; records may legally be shorter than the header.
pub open spec fn spec_field(row: Seq<String>, idx: Option<usize>) -> Option<Seq<char>> {
    match idx {
        None => None,
        Some(i) => if (i as int) < row.len() {
            Some(row[i as int]@)
        } else {
            None
        },
    }
}

/// What a data record denotes under a header: a command, or the exact
/// reason the record is malformed. A missing or empty amount cell is not
/// malformed; whether an amount is required is decided per command.
pub open spec fn spec_parse_row(h: Header, row: Seq<String>) -> Result<Command, RecordError> {
    match spec_field(row, h.type_idx) {
        None => Err(RecordError::MissingField),
        Some(ts) => match spec_command_type(ts) {
            None => Err(RecordError::BadCommandType),
            Some(ct) => match spec_field(row, h.client_idx) {
                None => Err(RecordError::MissingField),
                Some(cs) => match spec_parse_client(cs) {
                    None => Err(RecordError::BadClient),
                    Some(client) => match spec_field(row, h.tx_idx) {
                        None => Err(RecordError::MissingField),
                        Some(xs) => match spec_parse_tx(xs) {
                            None => Err(RecordError::BadTransactionId),
                            Some(tx) => match spec_field(row, h.amount_idx) {
                                None => Ok(
                                    Command { command_type: ct, client, tx, amount: None },
                                ),
                                Some(amt) => if amt.len() == 0 {
                                    Ok(Command { command_type: ct, client, tx, amount: None })
                                } else {
                                    match spec_parse_amount(amt) {
                                        None => Err(RecordError::BadAmount),
                                        Some(a) => Ok(
                                            Command {
                                                command_type: ct,
                                                client,
                                                tx,
                                                amount: Some(a),
                                            },
                                        ),
                                    }
                                },
                            },
                        },
                    },
                },
            },
        },
    }
}

/// Reads one data record under a header.
pub fn parse_row(h: &Header, row: &Vec<String>) -> (r: Result<Command, RecordError>)
    ensures
        r == spec_parse_row(*h, row@),
        r is Ok ==> r->Ok_0.valid(),
{
    let ts = match h.type_idx {
        None => {
            return Err(RecordError::MissingField);
        },
        Some(i) => if i < row.len() {
            &row[i]
        } else {
            return Err(RecordError::MissingField);
        },
    };
    let ct = match parse_command_type(ts.as_str()) {
        None => {
            return Err(RecordError::BadCommandType);
        },
        Some(c) => c,
    };
    let cs = match h.client_idx {
        None => {
            return Err(RecordError::MissingField);
        },
        Some(i) => if i < row.len() {
            &row[i]
        } else {
            return Err(RecordError::MissingField);
        },
    };
    let client = match parse_client(cs.as_str()) {
        None => {
            return Err(RecordError::BadClient);
        },
        Some(c) => c,
    };
    let xs = match h.tx_idx {
        None => {
            return Err(RecordError::MissingField);
        },
        Some(i) => if i < row.len() {
            &row[i]
        } else {
            return Err(RecordError::MissingField);
        },
    };
    let tx = match parse_tx(xs.as_str()) {
        None => {
            return Err(RecordError::BadTransactionId);
        },
        Some(t) => t,
    };
    let amount_cell = match h.amount_idx {
        None => None,
        Some(i) => if i < row.len() {
            Some(&row[i])
        } else {
            None
        },
    };
    let amount = match amount_cell {
        None => None,
        Some(a) => if a.as_str().unicode_len() == 0 {
            None
        } else {
            match parse_amount(a.as_str()) {
                None => {
                    return Err(RecordError::BadAmount);
                },
                Some(am) => Some(am),
            }
        },
    };
    Ok(Command { command_type: ct, client, tx, amount })
}

/// What `Moneys::parse` returns, stated as a value.
pub open spec fn spec_parse_moneys(s: Seq<char>) -> Result<Moneys, MoneyParseError> {
    match spec_parse_amount(s) {
        None => Err(MoneyParseError::Malformed),
        Some(Amount::Negative) => Err(MoneyParseError::NegativeValue),
        Some(Amount::TooBig) => Err(MoneyParseError::RangeOverflow),
        Some(Amount::Units(u)) => Ok(Moneys(u)),
    }
}

impl Moneys {
    /// Reads a decimal amount as money: the unit count it denotes,
    /// rounded half away from zero to four decimal places; negative and
    /// out-of-range amounts are rejected with their own causes.
    pub fn parse(s: &str) -> (r: Result<Moneys, MoneyParseError>)
        ensures
            r == spec_parse_moneys(s@),
            r is Ok ==> r->Ok_0.valid(),
    {
        match parse_amount(s) {
            None => Err(MoneyParseError::Malformed),
            Some(Amount::Negative) => Err(MoneyParseError::NegativeValue),
            Some(Amount::TooBig) => Err(MoneyParseError::RangeOverflow),
            Some(Amount::Units(u)) => Ok(Moneys(u)),
        }
    }
}

/// What `Command::get_moneys` returns, stated as a value.
pub open spec fn spec_get_moneys(amount: Option<Amount>) -> Result<Moneys, LedgerError> {
    match amount {
        None => Err(LedgerError::MissingAmount),
        Some(Amount::Negative) => Err(LedgerError::NegativeValue),
        Some(Amount::TooBig) => Err(LedgerError::RangeOverflow),
        Some(Amount::Units(u)) => Ok(Moneys(u)),
    }
}

impl Command {
    /// An in-range amount never exceeds the money bound.
    pub open spec fn valid(self) -> bool {
        match self.amount {
            Some(Amount::Units(u)) => u <= MAX_UNITS,
            _ => true,
        }
    }

    /// The amount the command carries, as money: absent, negative and
    /// oversized amounts each fail with their own cause.
    pub fn get_moneys(&self) -> (r: Result<Moneys, LedgerError>)
        ensures
            r == spec_get_moneys(self.amount),
    {
        match self.amount {
            None => Err(LedgerError::MissingAmount),
            Some(Amount::Negative) => Err(LedgerError::NegativeValue),
            Some(Amount::TooBig) => Err(LedgerError::RangeOverflow),
            Some(Amount::Units(u)) => Ok(Moneys(u)),
        }
    }
}

} // verus!
