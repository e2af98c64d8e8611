//! The encode pipeline: field serialization, checksum, compression,
//! header and base-32 extended-hex text encoding.
//!
//! The serialized form is a tab-separated list of exactly 17 fields;
//! absent optional values serialize as empty strings, so the tab count
//! is fixed. The byte layout of the final payload is
//! `[4-byte header][compressed blob]`, where the blob decompresses to
//! `[4-byte little-endian CRC-32][field string, UTF-8]`.

use vstd::arithmetic::div_mod::lemma_fundamental_div_mod_converse;
use vstd::prelude::*;
use vstd::utf8::encode_utf8;

use crate::errors::PayBySquareError;
use crate::models::{
    BankAccount, Date, DirectDebit, DirectDebitScheme, DirectDebitType, PaymentOption,
    PaymentRequest, Periodicity, StandingOrder,
};

verus! {

/// The decimal digits of `n`, without leading zeros.
pub open spec fn dec_digits(n: nat) -> Seq<u8>
    decreases n,
{
    if n < 10 {
        seq![(48 + n) as u8]
    } else {
        dec_digits(n / 10) + seq![(48 + n % 10) as u8]
    }
}

/// `n` as exactly two decimal digits (modulo 100).
pub open spec fn two_digits(n: nat) -> Seq<u8> {
    seq![(48 + (n / 10) % 10) as u8, (48 + n % 10) as u8]
}

/// `n` as exactly four decimal digits (modulo 10000).
pub open spec fn four_digits(n: nat) -> Seq<u8> {
    seq![
        (48 + (n / 1000) % 10) as u8,
        (48 + (n / 100) % 10) as u8,
        (48 + (n / 10) % 10) as u8,
        (48 + n % 10) as u8,
    ]
}

/// A date as the eight digits YYYYMMDD.
pub open spec fn date_digits(d: Date) -> Seq<u8> {
    four_digits(d.year as nat) + two_digits(d.month as nat) + two_digits(d.day as nat)
}

/// An amount in cents as decimal text with exactly two fractional
/// digits.
pub open spec fn amount_text(cents: int) -> Seq<u8>
    recommends
        cents > 0,
{
    dec_digits((cents / 100) as nat) + seq![46u8] + two_digits((cents % 100) as nat)
}

/// The parts joined by the separator, with nothing before the first or
/// after the last part.
pub open spec fn join_with(parts: Seq<Seq<u8>>, sep: Seq<u8>) -> Seq<u8>
    decreases parts.len(),
{
    if parts.len() == 0 {
        Seq::empty()
    } else if parts.len() == 1 {
        parts[0]
    } else {
        parts[0] + sep + join_with(parts.drop_first(), sep)
    }
}

/// Appending one part to a join adds one separator before it, unless
/// the join was empty.
pub proof fn lemma_join_push(parts: Seq<Seq<u8>>, x: Seq<u8>, sep: Seq<u8>)
    ensures
        parts.len() == 0 ==> join_with(parts.push(x), sep) == x,
        parts.len() > 0 ==> join_with(parts.push(x), sep) == join_with(parts, sep) + sep + x,
    decreases parts.len(),
{
    reveal_with_fuel(join_with, 3);
    if parts.len() == 0 {
        assert(parts.push(x).len() == 1);
        assert(parts.push(x)[0] == x);
    } else if parts.len() == 1 {
        assert(parts.push(x).drop_first() =~= seq![x]);
        assert(parts.push(x)[0] == parts[0]);
    } else {
        lemma_join_push(parts.drop_first(), x, sep);
        assert(parts.push(x).drop_first() =~= parts.drop_first().push(x));
        assert(parts.push(x)[0] == parts[0]);
        assert(join_with(parts, sep) == parts[0] + sep + join_with(parts.drop_first(), sep));
        assert((parts[0] + sep + join_with(parts.drop_first(), sep)) + sep + x =~= parts[0] + sep
            + (join_with(parts.drop_first(), sep) + sep + x));
    }
}

/// The numeric code of one payment option.
pub open spec fn option_code(o: PaymentOption) -> Seq<u8> {
    match o {
        PaymentOption::PaymentOrder => seq![49u8],
        PaymentOption::StandingOrder => seq![50u8],
        PaymentOption::DirectDebit => seq![51u8],
    }
}

/// Field 1: comma-joined numeric payment-option codes, "1" when absent.
pub open spec fn options_text(opts: Option<Vec<PaymentOption>>) -> Seq<u8> {
    match opts {
        Some(v) => join_with(v@.map_values(|o: PaymentOption| option_code(o)), seq![44u8]),
        None => seq![49u8],
    }
}

/// The UTF-8 bytes of an optional text field, empty when absent.
pub open spec fn opt_text(v: Option<String>) -> Seq<u8> {
    match v {
        Some(s) => encode_utf8(s@),
        None => Seq::empty(),
    }
}

/// An optional date as eight digits, empty when absent.
pub open spec fn opt_date_text(v: Option<Date>) -> Seq<u8> {
    match v {
        Some(d) => date_digits(d),
        None => Seq::empty(),
    }
}

/// One account as `IBAN` or `IBAN|SWIFT`.
pub open spec fn account_text(a: BankAccount) -> Seq<u8> {
    encode_utf8(a.iban@) + match a.swift {
        Some(s) => seq![124u8] + encode_utf8(s@),
        None => Seq::<u8>::empty(),
    }
}

/// Field 10: the comma-joined account list, or the single IBAN/SWIFT
/// pair, or empty.
pub open spec fn accounts_text(p: PaymentRequest) -> Seq<u8> {
    match p.bank_accounts {
        Some(accs) => join_with(accs@.map_values(|a: BankAccount| account_text(a)), seq![44u8]),
        None => match p.iban {
            Some(iban) => account_text(BankAccount { iban, swift: p.swift }),
            None => Seq::empty(),
        },
    }
}

/// The single letter of a standing order's periodicity.
pub open spec fn periodicity_letter(x: Periodicity) -> Seq<u8> {
    match x {
        Periodicity::Daily => seq![68u8],
        Periodicity::Weekly => seq![87u8],
        Periodicity::Monthly => seq![77u8],
        Periodicity::Quarterly => seq![81u8],
        Periodicity::HalfYearly => seq![72u8],
        Periodicity::Yearly => seq![89u8],
    }
}

/// Field 16: `day|months|periodicity|last-date`, or empty.
pub open spec fn standing_order_text(v: Option<StandingOrder>) -> Seq<u8> {
    match v {
        Some(so) => dec_digits(so.day as nat) + seq![124u8] + join_with(
            so.month@.map_values(|m: u8| dec_digits(m as nat)),
            seq![44u8],
        ) + seq![124u8] + periodicity_letter(so.periodicity) + seq![124u8] + date_digits(
            so.last_date,
        ),
        None => Seq::empty(),
    }
}

/// The token of a direct-debit scheme.
pub open spec fn scheme_text(x: DirectDebitScheme) -> Seq<u8> {
    match x {
        DirectDebitScheme::Sepa => seq![83u8, 69u8, 80u8, 65u8],
        DirectDebitScheme::Other => seq![79u8, 84u8, 72u8, 69u8, 82u8],
    }
}

/// The token of a direct-debit type.
pub open spec fn debit_type_text(x: DirectDebitType) -> Seq<u8> {
    match x {
        DirectDebitType::OneOff => seq![79u8, 78u8, 69u8, 79u8, 70u8, 70u8],
        DirectDebitType::Recurrent => seq![82u8, 67u8, 85u8, 82u8],
    }
}

/// Field 17: `scheme|type[|mandate_id][|creditor_id]`, or empty.
pub open spec fn direct_debit_text(v: Option<DirectDebit>) -> Seq<u8> {
    match v {
        Some(dd) => scheme_text(dd.scheme) + seq![124u8] + debit_type_text(dd.debit_type) + (
        match dd.mandate_id {
            Some(m) => seq![124u8] + encode_utf8(m@),
            None => Seq::<u8>::empty(),
        }) + (match dd.creditor_id {
            Some(c) => seq![124u8] + encode_utf8(c@),
            None => Seq::<u8>::empty(),
        }),
        None => Seq::empty(),
    }
}

/// The 17 fields of the serialized record, in their fixed order.
pub open spec fn fields_of(p: PaymentRequest) -> Seq<Seq<u8>> {
    seq![
        options_text(p.payment_options),
        amount_text(p.amount as int),
        encode_utf8(p.currency@),
        opt_date_text(p.date),
        opt_text(p.variable_symbol),
        opt_text(p.constant_symbol),
        opt_text(p.specific_symbol),
        opt_text(p.originators_reference_information),
        opt_text(p.note),
        accounts_text(p),
        opt_text(p.beneficiary_name),
        opt_text(p.beneficiary_address_1),
        opt_text(p.beneficiary_address_2),
        opt_date_text(p.payment_due_date),
        opt_text(p.invoice_id),
        standing_order_text(p.standing_order),
        direct_debit_text(p.direct_debit),
    ]
}

/// The full serialized record: the 17 fields joined by tabs, with no
/// trailing tab.
pub open spec fn serialized(p: PaymentRequest) -> Seq<u8> {
    join_with(fields_of(p), seq![9u8])
}

/// Joining one more field appends one separator and that field.
pub proof fn lemma_join_extend(fs: Seq<Seq<u8>>, k: int, sep: Seq<u8>)
    requires
        1 <= k <= fs.len(),
    ensures
        k == 1 ==> join_with(fs.take(k), sep) == fs[0],
        k > 1 ==> join_with(fs.take(k), sep) == join_with(fs.take(k - 1), sep) + sep + fs[k - 1],
{
    assert(fs.take(k) =~~= fs.take(k - 1).push(fs[k - 1]));
    lemma_join_push(fs.take(k - 1), fs[k - 1], sep);
}

/// Appends the decimal digits of `n`.
fn push_dec(out: &mut Vec<u8>, n: u64)
    ensures
        final(out)@ == old(out)@ + dec_digits(n as nat),
    decreases n,
{
    if n >= 10 {
        push_dec(out, n / 10);
    }
    let d: u8 = (n % 10) as u8;
    out.push(48 + d);
    proof {
        if n < 10 {
            assert(old(out)@.push((48 + n % 10) as u8) =~= old(out)@ + dec_digits(n as nat));
        } else {
            assert((old(out)@ + dec_digits((n / 10) as nat)).push((48 + n % 10) as u8) =~= old(
                out,
            )@ + dec_digits(n as nat));
        }
    }
}

/// Appends `n` as exactly two decimal digits.
fn push_two(out: &mut Vec<u8>, n: u8)
    ensures
        final(out)@ == old(out)@ + two_digits(n as nat),
{
    out.push(48 + (n / 10) % 10);
    out.push(48 + n % 10);
    proof {
        assert(final(out)@ =~= old(out)@ + two_digits(n as nat));
    }
}

/// Appends `n` as exactly four decimal digits.
fn push_four(out: &mut Vec<u8>, n: u16)
    ensures
        final(out)@ == old(out)@ + four_digits(n as nat),
{
    out.push(48 + ((n / 1000) % 10) as u8);
    out.push(48 + ((n / 100) % 10) as u8);
    out.push(48 + ((n / 10) % 10) as u8);
    out.push(48 + (n % 10) as u8);
    proof {
        assert(final(out)@ =~= old(out)@ + four_digits(n as nat));
    }
}

/// Appends a date as the eight digits YYYYMMDD.
fn push_date(out: &mut Vec<u8>, d: &Date)
    ensures
        final(out)@ == old(out)@ + date_digits(*d),
{
    push_four(out, d.year);
    push_two(out, d.month);
    push_two(out, d.day);
    proof {
        assert(final(out)@ =~= old(out)@ + date_digits(*d));
    }
}

/// Appends the UTF-8 bytes of a string.
fn push_str_bytes(out: &mut Vec<u8>, s: &str)
    ensures
        final(out)@ == old(out)@ + encode_utf8(s@),
{
    out.extend_from_slice(s.as_bytes());
}

/// Appends an optional text field, or nothing.
fn push_opt_str(out: &mut Vec<u8>, v: &Option<String>)
    ensures
        final(out)@ == old(out)@ + opt_text(*v),
{
    match v {
        Some(s) => push_str_bytes(out, s.as_str()),
        None => {
            proof {
                assert(old(out)@ + opt_text(*v) =~= old(out)@);
            }
        },
    }
}

/// Appends an optional date, or nothing.
fn push_opt_date(out: &mut Vec<u8>, v: &Option<Date>)
    ensures
        final(out)@ == old(out)@ + opt_date_text(*v),
{
    match v {
        Some(d) => push_date(out, d),
        None => {
            proof {
                assert(old(out)@ + opt_date_text(*v) =~= old(out)@);
            }
        },
    }
}

/// Appends the comma-joined payment-option codes, "1" when absent.
fn push_options(out: &mut Vec<u8>, opts: &Option<Vec<PaymentOption>>)
    ensures
        final(out)@ == old(out)@ + options_text(*opts),
{
    match opts {
        Some(v) => {
            let ghost f = |o: PaymentOption| option_code(o);
            let n = v.len();
            for i in 0..n
                invariant
                    n == v@.len(),
                    f == (|o: PaymentOption| option_code(o)),
                    out@ == old(out)@ + join_with(v@.take(i as int).map_values(f), seq![44u8]),
            {
                let ghost parts = v@.take(i as int).map_values(f);
                if i > 0 {
                    out.push(44);
                }
                let code: u8 = match v[i] {
                    PaymentOption::PaymentOrder => 49,
                    PaymentOption::StandingOrder => 50,
                    PaymentOption::DirectDebit => 51,
                };
                out.push(code);
                proof {
                    v@.lemma_map_take_succ(f, i as int);
                    lemma_join_push(parts, f(v@[i as int]), seq![44u8]);
                    assert(f(v@[i as int]) == option_code(v@[i as int]));
                    assert(parts.len() == i);
                    assert(out@ =~= old(out)@ + join_with(
                        v@.take(i + 1).map_values(f),
                        seq![44u8],
                    ));
                }
            }
            proof {
                assert(v@.take(n as int) =~= v@);
            }
        },
        None => {
            out.push(49);
            proof {
                assert(final(out)@ =~= old(out)@ + options_text(*opts));
            }
        },
    }
}

/// Appends one account as `IBAN` or `IBAN|SWIFT`.
fn push_account(out: &mut Vec<u8>, iban: &String, swift: &Option<String>)
    ensures
        final(out)@ == old(out)@ + account_text(
            BankAccount { iban: *iban, swift: *swift },
        ),
{
    push_str_bytes(out, iban.as_str());
    match swift {
        Some(s) => {
            out.push(124);
            push_str_bytes(out, s.as_str());
            proof {
                assert(final(out)@ =~= old(out)@ + account_text(
                    BankAccount { iban: *iban, swift: *swift },
                ));
            }
        },
        None => {
            proof {
                assert(final(out)@ =~= old(out)@ + account_text(
                    BankAccount { iban: *iban, swift: *swift },
                ));
            }
        },
    }
}

/// Appends field 10: the account list, the single IBAN/SWIFT pair, or
/// nothing.
fn push_accounts(out: &mut Vec<u8>, p: &PaymentRequest)
    ensures
        final(out)@ == old(out)@ + accounts_text(*p),
{
    match &p.bank_accounts {
        Some(accs) => {
            let ghost f = |a: BankAccount| account_text(a);
            let n = accs.len();
            for i in 0..n
                invariant
                    n == accs@.len(),
                    f == (|a: BankAccount| account_text(a)),
                    p.bank_accounts matches Some(a) && a@ == accs@,
                    out@ == old(out)@ + join_with(accs@.take(i as int).map_values(f), seq![44u8]),
            {
                let ghost parts = accs@.take(i as int).map_values(f);
                if i > 0 {
                    out.push(44);
                }
                let account = &accs[i];
                push_account(out, &account.iban, &account.swift);
                proof {
                    accs@.lemma_map_take_succ(f, i as int);
                    lemma_join_push(parts, f(accs@[i as int]), seq![44u8]);
                    assert(f(accs@[i as int]) == account_text(accs@[i as int]));
                    assert(account_text(accs@[i as int]) == account_text(
                        BankAccount { iban: account.iban, swift: account.swift },
                    ));
                    assert(parts.len() == i);
                    assert(out@ =~= old(out)@ + join_with(
                        accs@.take(i + 1).map_values(f),
                        seq![44u8],
                    ));
                }
            }
            proof {
                assert(accs@.take(n as int) =~= accs@);
            }
        },
        None => {
            match &p.iban {
                Some(iban) => {
                    push_account(out, iban, &p.swift);
                },
                None => {
                    proof {
                        assert(old(out)@ + accounts_text(*p) =~= old(out)@);
                    }
                },
            }
        },
    }
}

/// Appends field 16: the standing order block, or nothing.
fn push_standing_order(out: &mut Vec<u8>, v: &Option<StandingOrder>)
    ensures
        final(out)@ == old(out)@ + standing_order_text(*v),
{
    match v {
        Some(so) => {
            push_dec(out, so.day as u64);
            out.push(124);
            let ghost f = |m: u8| dec_digits(m as nat);
            let ghost base = out@;
            let n = so.month.len();
            for i in 0..n
                invariant
                    n == so.month@.len(),
                    f == (|m: u8| dec_digits(m as nat)),
                    out@ == base + join_with(so.month@.take(i as int).map_values(f), seq![44u8]),
            {
                let ghost parts = so.month@.take(i as int).map_values(f);
                if i > 0 {
                    out.push(44);
                }
                push_dec(out, so.month[i] as u64);
                proof {
                    so.month@.lemma_map_take_succ(f, i as int);
                    lemma_join_push(parts, f(so.month@[i as int]), seq![44u8]);
                    assert(f(so.month@[i as int]) == dec_digits(so.month@[i as int] as nat));
                    assert(parts.len() == i);
                    assert(out@ =~= base + join_with(
                        so.month@.take(i + 1).map_values(f),
                        seq![44u8],
                    ));
                }
            }
            proof {
                assert(so.month@.take(n as int) =~= so.month@);
            }
            out.push(124);
            let letter: u8 = match so.periodicity {
                Periodicity::Daily => 68,
                Periodicity::Weekly => 87,
                Periodicity::Monthly => 77,
                Periodicity::Quarterly => 81,
                Periodicity::HalfYearly => 72,
                Periodicity::Yearly => 89,
            };
            out.push(letter);
            out.push(124);
            push_date(out, &so.last_date);
            proof {
                assert(final(out)@ =~= old(out)@ + standing_order_text(*v));
            }
        },
        None => {
            proof {
                assert(old(out)@ + standing_order_text(*v) =~= old(out)@);
            }
        },
    }
}

/// Appends field 17: the direct debit block, or nothing.
#[verifier::rlimit(100)]
fn push_direct_debit(out: &mut Vec<u8>, v: &Option<DirectDebit>)
    ensures
        final(out)@ == old(out)@ + direct_debit_text(*v),
{
    match v {
        Some(dd) => {
            match dd.scheme {
                DirectDebitScheme::Sepa => {
                    out.push(83);
                    out.push(69);
                    out.push(80);
                    out.push(65);
                },
                DirectDebitScheme::Other => {
                    out.push(79);
                    out.push(84);
                    out.push(72);
                    out.push(69);
                    out.push(82);
                },
            }
            out.push(124);
            match dd.debit_type {
                DirectDebitType::OneOff => {
                    out.push(79);
                    out.push(78);
                    out.push(69);
                    out.push(79);
                    out.push(70);
                    out.push(70);
                },
                DirectDebitType::Recurrent => {
                    out.push(82);
                    out.push(67);
                    out.push(85);
                    out.push(82);
                },
            }
            match &dd.mandate_id {
                Some(m) => {
                    out.push(124);
                    push_str_bytes(out, m.as_str());
                },
                None => {},
            }
            match &dd.creditor_id {
                Some(c) => {
                    out.push(124);
                    push_str_bytes(out, c.as_str());
                },
                None => {},
            }
            proof {
                assert(final(out)@ =~= old(out)@ + direct_debit_text(*v));
            }
        },
        None => {
            proof {
                assert(old(out)@ + direct_debit_text(*v) =~= old(out)@);
            }
        },
    }
}

/// Appends the amount as decimal text with exactly two fractional
/// digits.
fn push_amount(out: &mut Vec<u8>, cents: i64)
    requires
        cents > 0,
    ensures
        final(out)@ == old(out)@ + amount_text(cents as int),
{
    push_dec(out, (cents / 100) as u64);
    out.push(46);
    push_two(out, (cents % 100) as u8);
    proof {
        assert(final(out)@ =~= old(out)@ + amount_text(cents as int));
    }
}

/// Formats a date as YYYYMMDD.
pub fn format_date(date: Date) -> (r: String)
    ensures
        r@ == ascii_chars(date_digits(date)),
{
    let mut out: Vec<u8> = Vec::new();
    push_date(&mut out, &date);
    proof {
        assert(out@ =~= date_digits(date));
        assert(forall|k: int| 0 <= k < out@.len() ==> out@[k] < 128);
    }
    ascii_to_string(out)
}

/// Builds the tab-separated 17-field record for a payment request.
#[verifier::rlimit(100)]
pub fn build_data_structure(payment: &PaymentRequest) -> (r: Vec<u8>)
    requires
        payment.serializable(),
    ensures
        r@ == serialized(*payment),
{
    let ghost fs = fields_of(*payment);
    let ghost tab = seq![9u8];
    let mut out: Vec<u8> = Vec::new();
    push_options(&mut out, &payment.payment_options);
    proof {
        lemma_join_extend(fs, 1, tab);
        assert(out@ =~= join_with(fs.take(1), tab));
    }
    out.push(9);
    push_amount(&mut out, payment.amount);
    proof {
        lemma_join_extend(fs, 2, tab);
        assert(out@ =~= join_with(fs.take(2), tab));
    }
    out.push(9);
    push_str_bytes(&mut out, payment.currency.as_str());
    proof {
        lemma_join_extend(fs, 3, tab);
        assert(out@ =~= join_with(fs.take(3), tab));
    }
    out.push(9);
    push_opt_date(&mut out, &payment.date);
    proof {
        lemma_join_extend(fs, 4, tab);
        assert(out@ =~= join_with(fs.take(4), tab));
    }
    out.push(9);
    push_opt_str(&mut out, &payment.variable_symbol);
    proof {
        lemma_join_extend(fs, 5, tab);
        assert(out@ =~= join_with(fs.take(5), tab));
    }
    out.push(9);
    push_opt_str(&mut out, &payment.constant_symbol);
    proof {
        lemma_join_extend(fs, 6, tab);
        assert(out@ =~= join_with(fs.take(6), tab));
    }
    out.push(9);
    push_opt_str(&mut out, &payment.specific_symbol);
    proof {
        lemma_join_extend(fs, 7, tab);
        assert(out@ =~= join_with(fs.take(7), tab));
    }
    out.push(9);
    push_opt_str(&mut out, &payment.originators_reference_information);
    proof {
        lemma_join_extend(fs, 8, tab);
        assert(out@ =~= join_with(fs.take(8), tab));
    }
    out.push(9);
    push_opt_str(&mut out, &payment.note);
    proof {
        lemma_join_extend(fs, 9, tab);
        assert(out@ =~= join_with(fs.take(9), tab));
    }
    out.push(9);
    push_accounts(&mut out, payment);
    proof {
        lemma_join_extend(fs, 10, tab);
        assert(out@ =~= join_with(fs.take(10), tab));
    }
    out.push(9);
    push_opt_str(&mut out, &payment.beneficiary_name);
    proof {
        lemma_join_extend(fs, 11, tab);
        assert(out@ =~= join_with(fs.take(11), tab));
    }
    out.push(9);
    push_opt_str(&mut out, &payment.beneficiary_address_1);
    proof {
        lemma_join_extend(fs, 12, tab);
        assert(out@ =~= join_with(fs.take(12), tab));
    }
    out.push(9);
    push_opt_str(&mut out, &payment.beneficiary_address_2);
    proof {
        lemma_join_extend(fs, 13, tab);
        assert(out@ =~= join_with(fs.take(13), tab));
    }
    out.push(9);
    push_opt_date(&mut out, &payment.payment_due_date);
    proof {
        lemma_join_extend(fs, 14, tab);
        assert(out@ =~= join_with(fs.take(14), tab));
    }
    out.push(9);
    push_opt_str(&mut out, &payment.invoice_id);
    proof {
        lemma_join_extend(fs, 15, tab);
        assert(out@ =~= join_with(fs.take(15), tab));
    }
    out.push(9);
    push_standing_order(&mut out, &payment.standing_order);
    proof {
        lemma_join_extend(fs, 16, tab);
        assert(out@ =~= join_with(fs.take(16), tab));
    }
    out.push(9);
    push_direct_debit(&mut out, &payment.direct_debit);
    proof {
        lemma_join_extend(fs, 17, tab);
        assert(out@ =~= join_with(fs.take(17), tab));
        assert(fs.take(17) =~~= fs);
    }
    out
}

/// Big-endian bit `j` of the byte stream, zero past the end.
pub open spec fn stream_bit(d: Seq<u8>, j: int) -> bool {
    0 <= j < 8 * d.len() && (d[j / 8] >> ((7 - (j % 8)) as u8)) & 1 == 1
}

/// The value of the five bits at stream positions `5i` to `5i + 4`.
pub open spec fn symbol_value(d: Seq<u8>, i: int) -> int {
    (if stream_bit(d, 5 * i) {
        16int
    } else {
        0int
    }) + (if stream_bit(d, 5 * i + 1) {
        8int
    } else {
        0int
    }) + (if stream_bit(d, 5 * i + 2) {
        4int
    } else {
        0int
    }) + (if stream_bit(d, 5 * i + 3) {
        2int
    } else {
        0int
    }) + (if stream_bit(d, 5 * i + 4) {
        1int
    } else {
        0int
    })
}

/// How many symbols encode `n` bytes: the ceiling of `8n / 5`.
pub open spec fn b32_len(n: int) -> int {
    (8 * n + 4) / 5
}

/// The alphabet symbol of a five-bit value: `0`-`9` then `A`-`V`.
pub open spec fn b32_symbol(v: int) -> u8
    recommends
        0 <= v < 32,
{
    if v < 10 {
        (48 + v) as u8
    } else {
        (55 + v) as u8
    }
}

/// The base-32 extended-hex encoding of the bytes, as ASCII bytes:
/// five-bit groups from the big-endian bit stream, the last group
/// padded with zero bits, and no padding characters.
pub open spec fn base32hex_bytes(d: Seq<u8>) -> Seq<u8> {
    Seq::new(b32_len(d.len() as int) as nat, |i: int| b32_symbol(symbol_value(d, i)))
}

/// The bytes read as characters, one character per byte.
pub open spec fn ascii_chars(s: Seq<u8>) -> Seq<char> {
    s.map_values(|b: u8| b as char)
}

/// The base-32 extended-hex encoding of the bytes, as text.
pub open spec fn base32hex_chars(d: Seq<u8>) -> Seq<char> {
    ascii_chars(base32hex_bytes(d))
}

/// A five-bit group's value is between 0 and 31.
pub proof fn lemma_symbol_value_range(d: Seq<u8>, i: int)
    ensures
        0 <= symbol_value(d, i) < 32,
{
}

/// Every byte of an encoding is a digit or a letter `A` to `V`.
pub proof fn lemma_base32_bytes_alphabet(d: Seq<u8>)
    ensures
        forall|i: int|
            0 <= i < base32hex_bytes(d).len() ==> {
                let b = #[trigger] base32hex_bytes(d)[i];
                (48 <= b <= 57) || (65 <= b <= 86)
            },
{
    assert forall|i: int| 0 <= i < base32hex_bytes(d).len() implies {
        let b = #[trigger] base32hex_bytes(d)[i];
        (48 <= b <= 57) || (65 <= b <= 86)
    } by {
        lemma_symbol_value_range(d, i);
    }
}

/// Whether one bit of the two-byte window holds, as the stream sees it.
proof fn lemma_stream_bit_window(d: Seq<u8>, q: int, t: int, b1: u8)
    requires
        0 <= q < d.len(),
        0 <= t <= 11,
        b1 == if q + 1 < d.len() {
            d[q + 1]
        } else {
            0u8
        },
    ensures
        stream_bit(d, 8 * q + t) <==> ((((d[q] as u16) << 8u16) | (b1 as u16)) >> ((15 - t) as u16))
            & 1 == 1,
{
    let b0 = d[q];
    let word: u16 = ((b0 as u16) << 8u16) | (b1 as u16);
    let t16: u16 = t as u16;
    if t < 8 {
        lemma_fundamental_div_mod_converse(8 * q + t, 8, q, t);
        assert(8 * q + t < 8 * d.len());
        assert(stream_bit(d, 8 * q + t) <==> (b0 >> ((7 - t) as u8)) & 1 == 1);
        assert((((((b0 as u16) << 8u16) | (b1 as u16)) >> ((15 - t16) as u16)) & 1 == 1) <==> ((b0
            >> ((7 - t16) as u8)) & 1 == 1)) by (bit_vector)
            requires
                t16 < 8,
        ;
    } else {
        lemma_fundamental_div_mod_converse(8 * q + t, 8, q + 1, t - 8);
        if q + 1 < d.len() {
            assert(8 * q + t < 8 * d.len());
            assert(stream_bit(d, 8 * q + t) <==> (b1 >> ((15 - t) as u8)) & 1 == 1);
            assert((((((b0 as u16) << 8u16) | (b1 as u16)) >> ((15 - t16) as u16)) & 1 == 1) <==> ((
            b1 >> ((15 - t16) as u8)) & 1 == 1)) by (bit_vector)
                requires
                    8 <= t16 <= 11,
            ;
        } else {
            assert(8 * q + t >= 8 * d.len());
            assert(!stream_bit(d, 8 * q + t));
            assert(((((b0 as u16) << 8u16) | (0u8 as u16)) >> ((15 - t16) as u16)) & 1 == 0)
                by (bit_vector)
                requires
                    8 <= t16 <= 11,
            ;
        }
    }
}

/// The five bits extracted from the two-byte window equal the five-bit
/// group of the stream.
proof fn lemma_symbol_window(d: Seq<u8>, q: int, r: int, b1: u8, i: int)
    requires
        0 <= q < d.len(),
        0 <= r < 8,
        5 * i == 8 * q + r,
        b1 == if q + 1 < d.len() {
            d[q + 1]
        } else {
            0u8
        },
    ensures
        symbol_value(d, i) == (((((d[q] as u16) << 8u16) | (b1 as u16)) >> ((11 - r) as u16))
            & 31) as int,
{
    let b0 = d[q];
    let word: u16 = ((b0 as u16) << 8u16) | (b1 as u16);
    let r16: u16 = r as u16;
    let v: u16 = (word >> ((11 - r16) as u16)) & 31;
    assert(v == 16 * ((word >> ((15 - r16) as u16)) & 1) + 8 * ((word >> ((14 - r16) as u16)) & 1)
        + 4 * ((word >> ((13 - r16) as u16)) & 1) + 2 * ((word >> ((12 - r16) as u16)) & 1) + ((
    word >> ((11 - r16) as u16)) & 1) && (word >> ((15 - r16) as u16)) & 1 <= 1 && (word >> ((14
        - r16) as u16)) & 1 <= 1 && (word >> ((13 - r16) as u16)) & 1 <= 1 && (word >> ((12 - r16)
        as u16)) & 1 <= 1 && (word >> ((11 - r16) as u16)) & 1 <= 1) by (bit_vector)
        requires
            r16 < 8,
            v == (word >> ((11 - r16) as u16)) & 31,
    ;
    lemma_stream_bit_window(d, q, r, b1);
    lemma_stream_bit_window(d, q, r + 1, b1);
    lemma_stream_bit_window(d, q, r + 2, b1);
    lemma_stream_bit_window(d, q, r + 3, b1);
    lemma_stream_bit_window(d, q, r + 4, b1);
    assert(5 * i == 8 * q + r);
    assert(5 * i + 1 == 8 * q + (r + 1));
    assert(5 * i + 2 == 8 * q + (r + 2));
    assert(5 * i + 3 == 8 * q + (r + 3));
    assert(5 * i + 4 == 8 * q + (r + 4));
    assert((15 - r16) as u16 == (15 - (r16 + 0)) as u16);
}

/// Encodes bytes as base-32 extended-hex text (alphabet `0`-`9`,
/// `A`-`V`, upper case, no padding characters).
pub fn base32hex_encode(data: &[u8]) -> (r: String)
    ensures
        r@ == base32hex_chars(data@),
{
    let n = data.len();
    let mut out: Vec<u8> = Vec::new();
    let mut q: usize = 0;
    let mut rbits: usize = 0;
    while q < n
        invariant
            n == data@.len(),
            q <= n,
            rbits < 8,
            q == n ==> rbits < 5,
            8 * q + rbits == 5 * out@.len(),
            out@ == base32hex_bytes(data@).take(out@.len() as int),
        decreases 8 * n + 8 - 8 * q - rbits,
    {
        let ghost i = out@.len() as int;
        let b0 = data[q];
        let b1: u8 = if q + 1 < n {
            data[q + 1]
        } else {
            0
        };
        let word: u16 = ((b0 as u16) << 8u16) | (b1 as u16);
        let sh: u16 = (11 - rbits) as u16;
        let v16: u16 = (word >> sh) & 31;
        proof {
            assert(v16 < 32) by (bit_vector)
                requires
                    v16 == (word >> sh) & 31,
            ;
            lemma_symbol_window(data@, q as int, rbits as int, b1, i);
        }
        let v: u8 = v16 as u8;
        let sym: u8 = if v < 10 {
            48 + v
        } else {
            55 + v
        };
        out.push(sym);
        proof {
            assert(i < b32_len(data@.len() as int));
            assert(base32hex_bytes(data@)[i] == b32_symbol(symbol_value(data@, i)));
            assert(out@ =~= base32hex_bytes(data@).take(i + 1));
        }
        rbits += 5;
        if rbits >= 8 {
            rbits -= 8;
            q += 1;
        }
    }
    proof {
        lemma_fundamental_div_mod_converse(
            8 * data@.len() as int + 4,
            5,
            out@.len() as int,
            4 - rbits,
        );
        assert(out@ =~= base32hex_bytes(data@));
        lemma_base32_bytes_alphabet(data@);
        assert(ascii_chars(out@) =~= base32hex_chars(data@));
    }
    let s = ascii_to_string(out);
    proof {
        assert(s@ =~= base32hex_chars(data@));
    }
    s
}

/// The name of the CRC-32 checksum an outside routine computes.
pub uninterp spec fn crc32_of(data: Seq<u8>) -> u32;

/// Relies on `crc32fast::hash`: the standard CRC-32 checksum (the one
/// used by zip and PNG), a function of the input bytes alone.
#[verifier::external_body]
fn crc32_hash(data: &[u8]) -> (r: u32)
    ensures
        r == crc32_of(data@),
{
    crc32fast::hash(data)
}

/// The name of the compressed stream an outside routine produces at
/// the fixed preset. The single-threaded encoder is deterministic in
/// its input; the exact stream is that of the compressor build this
/// library links against, which is all the contracts here compare.
pub uninterp spec fn lzma_compressed(data: Seq<u8>) -> Seq<u8>;

/// Relies on `xz2::write::XzEncoder` at preset 6: the emitted XZ
/// stream is a function of the input bytes alone, and a failure of
/// `write_all` or `finish` is reported, not retried.
#[verifier::external_body]
fn compress_lzma(data: &[u8]) -> (r: Result<Vec<u8>, PayBySquareError>)
    ensures
        r matches Ok(v) ==> v@ == lzma_compressed(data@),
        r matches Err(e) ==> e == PayBySquareError::CompressionError,
{
    let mut encoder = xz2::write::XzEncoder::new(Vec::new(), 6);
    if std::io::Write::write_all(&mut encoder, data).is_err() {
        return Err(PayBySquareError::CompressionError);
    }
    match encoder.finish() {
        Ok(v) => Ok(v),
        Err(_) => Err(PayBySquareError::CompressionError),
    }
}

/// Relies on `String::from_utf8`: a vector of ASCII bytes becomes the
/// string holding exactly those bytes as characters.
#[verifier::external_body]
fn ascii_to_string(bytes: Vec<u8>) -> (r: String)
    requires
        forall|i: int| 0 <= i < bytes@.len() ==> bytes@[i] < 128,
    ensures
        r@ == ascii_chars(bytes@),
{
    String::from_utf8(bytes).unwrap_or_default()
}

/// The little-endian bytes of a 32-bit checksum.
pub open spec fn le_bytes(x: u32) -> Seq<u8> {
    seq![
        (x & 0xff) as u8,
        ((x >> 8u32) & 0xff) as u8,
        ((x >> 16u32) & 0xff) as u8,
        ((x >> 24u32) & 0xff) as u8,
    ]
}

/// The bytes that are text-encoded for a record: a four-byte header of
/// zeros, then the compressed checksum-prefixed field string.
pub open spec fn payload_bytes(p: PaymentRequest) -> Seq<u8> {
    seq![0u8, 0u8, 0u8, 0u8] + lzma_compressed(le_bytes(crc32_of(serialized(p))) + serialized(p))
}

/// The text code of a record.
pub open spec fn code_chars(p: PaymentRequest) -> Seq<char> {
    base32hex_chars(payload_bytes(p))
}

/// Generates the text code for a payment record: serialize, checksum,
/// compress, tag with the header, and text-encode.
pub fn generate_pay_by_square_code(payment: &PaymentRequest) -> (r: Result<
    String,
    PayBySquareError,
>)
    requires
        payment.serializable(),
    ensures
        r matches Ok(c) ==> c@ == code_chars(*payment),
        r matches Err(e) ==> e == PayBySquareError::CompressionError,
{
    let data = build_data_structure(payment);
    let crc = crc32_hash(data.as_slice());
    let mut body: Vec<u8> = Vec::new();
    body.push((crc & 0xff) as u8);
    body.push(((crc >> 8u32) & 0xff) as u8);
    body.push(((crc >> 16u32) & 0xff) as u8);
    body.push(((crc >> 24u32) & 0xff) as u8);
    body.extend_from_slice(data.as_slice());
    proof {
        assert(body@ =~= le_bytes(crc32_of(serialized(*payment))) + serialized(*payment));
    }
    let compressed = match compress_lzma(body.as_slice()) {
        Ok(c) => c,
        Err(e) => {
            return Err(e);
        },
    };
    let mut payload: Vec<u8> = Vec::new();
    payload.push(0);
    payload.push(0);
    payload.push(0);
    payload.push(0);
    payload.extend_from_slice(compressed.as_slice());
    proof {
        assert(payload@ =~= payload_bytes(*payment));
    }
    Ok(base32hex_encode(payload.as_slice()))
}

/// Law: the pipeline is deterministic. The code is a function of the
/// record alone, so any two codes stated for the same record are
/// byte-identical.
pub proof fn lemma_code_deterministic(p: PaymentRequest, c1: Seq<char>, c2: Seq<char>)
    requires
        c1 == code_chars(p),
        c2 == code_chars(p),
    ensures
        c1 == c2,
{
}

/// Whether a character belongs to the base-32 extended-hex alphabet
/// `0123456789ABCDEFGHIJKLMNOPQRSTUV`.
pub open spec fn is_code_char(c: char) -> bool {
    ('0' <= c <= '9') || ('A' <= c <= 'V')
}

/// Law: the text code only ever contains characters from the alphabet
/// `0123456789ABCDEFGHIJKLMNOPQRSTUV`.
pub proof fn lemma_code_alphabet(p: PaymentRequest)
    ensures
        forall|i: int| 0 <= i < code_chars(p).len() ==> is_code_char(#[trigger] code_chars(p)[i]),
{
    let d = payload_bytes(p);
    lemma_base32_bytes_alphabet(d);
    assert forall|i: int| 0 <= i < code_chars(p).len() implies is_code_char(
        #[trigger] code_chars(p)[i],
    ) by {
        let b = base32hex_bytes(d)[i];
        assert(code_chars(p)[i] == b as char);
        assert((48 <= b <= 57) || (65 <= b <= 86));
    }
}

} // verus!
