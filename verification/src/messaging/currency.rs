//! Money formats of the currencies Octy accepts, and the parameters of an
//! `item_price` placeholder.
//!
//! The amount itself is a float and is computed and rendered by the caller;
//! here are the formats it is set into and the reading of the parameters.

use vstd::prelude::*;
use crate::text::{
    chars_of, concat3, copy_str, join, join_chars, lemma_first_occurrence_is, occurs_at, parse_i64,
    parse_int, split_on, split_seq, str_eq, string_of, trim, trim_chars,
};

verus! {

/// The money format of a currency code (upper case), with `{amount}` where
/// the amount goes.
pub open spec fn money_format(code: Seq<char>) -> Option<Seq<char>> {
    if code == "USD"@ || code == "AUD"@ || code == "CAD"@ || code == "NZD"@ || code == "SGD"@ || code == "HKD"@ || code == "TWD"@ || code == "ARS"@ || code == "CLP"@ || code == "COP"@ {
        Some("${amount}"@)
    } else if code == "MXN"@ {
        Some("$ {amount}"@)
    } else if code == "EUR"@ {
        Some("€{amount}"@)
    } else if code == "GBP"@ {
        Some("£{amount}"@)
    } else if code == "JPY"@ || code == "CNY"@ {
        Some("¥{amount}"@)
    } else if code == "INR"@ {
        Some("Rs. {amount}"@)
    } else if code == "CHF"@ {
        Some("SFr. {amount}"@)
    } else if code == "SEK"@ {
        Some("{amount} kr"@)
    } else if code == "NOK"@ {
        Some("kr {amount}"@)
    } else if code == "DKK"@ {
        Some("{amount}kr"@)
    } else if code == "ZAR"@ {
        Some("R {amount}"@)
    } else if code == "BRL"@ {
        Some("R$ {amount}"@)
    } else if code == "PLN"@ {
        Some("{amount} zl"@)
    } else if code == "RUB"@ {
        Some("{amount} руб"@)
    } else if code == "TRY"@ {
        Some("{amount}TL"@)
    } else if code == "AED"@ {
        Some("Dhs. {amount}"@)
    } else if code == "ILS"@ {
        Some("{amount} NIS"@)
    } else if code == "KRW"@ {
        Some("₩{amount}"@)
    } else if code == "THB"@ {
        Some("{amount} ฿"@)
    } else if code == "IDR"@ {
        Some("Rp {amount}"@)
    } else if code == "MYR"@ {
        Some("RM{amount} MYR"@)
    } else if code == "PHP"@ {
        Some("₱{amount}"@)
    } else if code == "CZK"@ {
        Some("{amount} Kč"@)
    } else if code == "HUF"@ {
        Some("{amount} Ft"@)
    } else if code == "RON"@ {
        Some("{amount} lei"@)
    } else if code == "BGN"@ {
        Some("{amount} лв"@)
    } else if code == "HRK"@ {
        Some("{amount} kn"@)
    } else if code == "UAH"@ {
        Some("₴{amount}"@)
    } else if code == "VND"@ {
        Some("{amount}₫"@)
    } else if code == "PEN"@ {
        Some("S/. {amount}"@)
    } else if code == "EGP"@ {
        Some("LE {amount}"@)
    } else if code == "NGN"@ {
        Some("₦{amount}"@)
    } else if code == "KES"@ {
        Some("KSh{amount}"@)
    } else if code == "SAR"@ {
        Some("{amount} SR"@)
    } else if code == "QAR"@ {
        Some("QR {amount}"@)
    } else {
        None
    }
}

/// The money format of a currency code; `None` for codes not accepted.
pub fn money_format_template(code: &str) -> (r: Option<String>)
    ensures
        match r {
            Some(t) => money_format(code@) == Some(t@),
            None => money_format(code@) is None,
        },
{
    if str_eq(code, "USD") || str_eq(code, "AUD") || str_eq(code, "CAD") || str_eq(code, "NZD") || str_eq(code, "SGD") || str_eq(code, "HKD") || str_eq(code, "TWD") || str_eq(code, "ARS") || str_eq(code, "CLP") || str_eq(code, "COP") {
        Some(copy_str("${amount}"))
    } else if str_eq(code, "MXN") {
        Some(copy_str("$ {amount}"))
    } else if str_eq(code, "EUR") {
        Some(copy_str("€{amount}"))
    } else if str_eq(code, "GBP") {
        Some(copy_str("£{amount}"))
    } else if str_eq(code, "JPY") || str_eq(code, "CNY") {
        Some(copy_str("¥{amount}"))
    } else if str_eq(code, "INR") {
        Some(copy_str("Rs. {amount}"))
    } else if str_eq(code, "CHF") {
        Some(copy_str("SFr. {amount}"))
    } else if str_eq(code, "SEK") {
        Some(copy_str("{amount} kr"))
    } else if str_eq(code, "NOK") {
        Some(copy_str("kr {amount}"))
    } else if str_eq(code, "DKK") {
        Some(copy_str("{amount}kr"))
    } else if str_eq(code, "ZAR") {
        Some(copy_str("R {amount}"))
    } else if str_eq(code, "BRL") {
        Some(copy_str("R$ {amount}"))
    } else if str_eq(code, "PLN") {
        Some(copy_str("{amount} zl"))
    } else if str_eq(code, "RUB") {
        Some(copy_str("{amount} руб"))
    } else if str_eq(code, "TRY") {
        Some(copy_str("{amount}TL"))
    } else if str_eq(code, "AED") {
        Some(copy_str("Dhs. {amount}"))
    } else if str_eq(code, "ILS") {
        Some(copy_str("{amount} NIS"))
    } else if str_eq(code, "KRW") {
        Some(copy_str("₩{amount}"))
    } else if str_eq(code, "THB") {
        Some(copy_str("{amount} ฿"))
    } else if str_eq(code, "IDR") {
        Some(copy_str("Rp {amount}"))
    } else if str_eq(code, "MYR") {
        Some(copy_str("RM{amount} MYR"))
    } else if str_eq(code, "PHP") {
        Some(copy_str("₱{amount}"))
    } else if str_eq(code, "CZK") {
        Some(copy_str("{amount} Kč"))
    } else if str_eq(code, "HUF") {
        Some(copy_str("{amount} Ft"))
    } else if str_eq(code, "RON") {
        Some(copy_str("{amount} lei"))
    } else if str_eq(code, "BGN") {
        Some(copy_str("{amount} лв"))
    } else if str_eq(code, "HRK") {
        Some(copy_str("{amount} kn"))
    } else if str_eq(code, "UAH") {
        Some(copy_str("₴{amount}"))
    } else if str_eq(code, "VND") {
        Some(copy_str("{amount}₫"))
    } else if str_eq(code, "PEN") {
        Some(copy_str("S/. {amount}"))
    } else if str_eq(code, "EGP") {
        Some(copy_str("LE {amount}"))
    } else if str_eq(code, "NGN") {
        Some(copy_str("₦{amount}"))
    } else if str_eq(code, "KES") {
        Some(copy_str("KSh{amount}"))
    } else if str_eq(code, "SAR") {
        Some(copy_str("{amount} SR"))
    } else if str_eq(code, "QAR") {
        Some(copy_str("QR {amount}"))
    } else {
        None
    }
}

/// `template.replace(from, to)`: every non-overlapping occurrence of `from`
/// (leftmost first) replaced by `to`.
pub open spec fn replace_all(template: Seq<char>, from: Seq<char>, to: Seq<char>) -> Seq<char> {
    join(split_seq(template, from), to)
}

/// Replaces every occurrence of the non-empty `from` in `template` by `to`.
pub fn replace_text(template: &str, from: &str, to: &str) -> (r: String)
    requires
        from@.len() > 0,
    ensures
        r@ == replace_all(template@, from@, to@),
{
    let t = chars_of(template);
    let f = chars_of(from);
    let pieces = split_on(&t, &f);
    let to_chars = chars_of(to);
    let joined = join_chars(&pieces, &to_chars);
    string_of(&joined)
}

/// The amount, already rendered, set into the money format of `code`.
pub open spec fn money_text_of(code: Seq<char>, amount: Seq<char>) -> Result<Seq<char>, Seq<char>> {
    match money_format(code) {
        Some(t) => Ok(replace_all(t, "{amount}"@, amount)),
        None => Err("KeyError: unknown currency code '"@ + code + "'"@),
    }
}

/// Sets the rendered amount into the money format of `code_upper`.
pub fn get_money_text(code_upper: &str, amount: &str) -> (r: Result<String, String>)
    ensures
        match r {
            Ok(s) => money_text_of(code_upper@, amount@) == Ok::<Seq<char>, Seq<char>>(s@),
            Err(m) => money_text_of(code_upper@, amount@) == Err::<Seq<char>, Seq<char>>(m@),
        },
{
    match money_format_template(code_upper) {
        Some(t) => {
            proof {
                reveal_strlit("{amount}");
            }
            Ok(replace_text(t.as_str(), "{amount}", amount))
        },
        None => Err(concat3("KeyError: unknown currency code '", code_upper, "'")),
    }
}

/// The marks a currency's amounts are written between: the text before the
/// amount (the currency's symbol or abbreviation, with its spacing) and the
/// text after it.
pub open spec fn currency_marks(code: Seq<char>) -> Option<(Seq<char>, Seq<char>)> {
    if code == "USD"@ || code == "AUD"@ || code == "CAD"@ || code == "NZD"@ || code == "SGD"@ || code == "HKD"@ || code == "TWD"@ || code == "ARS"@ || code == "CLP"@ || code == "COP"@ {
        Some((seq!['$'], Seq::<char>::empty()))
    } else if code == "MXN"@ {
        Some((seq!['$', ' '], Seq::<char>::empty()))
    } else if code == "EUR"@ {
        Some((seq!['€'], Seq::<char>::empty()))
    } else if code == "GBP"@ {
        Some((seq!['£'], Seq::<char>::empty()))
    } else if code == "JPY"@ || code == "CNY"@ {
        Some((seq!['¥'], Seq::<char>::empty()))
    } else if code == "INR"@ {
        Some((seq!['R', 's', '.', ' '], Seq::<char>::empty()))
    } else if code == "CHF"@ {
        Some((seq!['S', 'F', 'r', '.', ' '], Seq::<char>::empty()))
    } else if code == "SEK"@ {
        Some((Seq::<char>::empty(), seq![' ', 'k', 'r']))
    } else if code == "NOK"@ {
        Some((seq!['k', 'r', ' '], Seq::<char>::empty()))
    } else if code == "DKK"@ {
        Some((Seq::<char>::empty(), seq!['k', 'r']))
    } else if code == "ZAR"@ {
        Some((seq!['R', ' '], Seq::<char>::empty()))
    } else if code == "BRL"@ {
        Some((seq!['R', '$', ' '], Seq::<char>::empty()))
    } else if code == "PLN"@ {
        Some((Seq::<char>::empty(), seq![' ', 'z', 'l']))
    } else if code == "RUB"@ {
        Some((Seq::<char>::empty(), seq![' ', 'р', 'у', 'б']))
    } else if code == "TRY"@ {
        Some((Seq::<char>::empty(), seq!['T', 'L']))
    } else if code == "AED"@ {
        Some((seq!['D', 'h', 's', '.', ' '], Seq::<char>::empty()))
    } else if code == "ILS"@ {
        Some((Seq::<char>::empty(), seq![' ', 'N', 'I', 'S']))
    } else if code == "KRW"@ {
        Some((seq!['₩'], Seq::<char>::empty()))
    } else if code == "THB"@ {
        Some((Seq::<char>::empty(), seq![' ', '฿']))
    } else if code == "IDR"@ {
        Some((seq!['R', 'p', ' '], Seq::<char>::empty()))
    } else if code == "MYR"@ {
        Some((seq!['R', 'M'], seq![' ', 'M', 'Y', 'R']))
    } else if code == "PHP"@ {
        Some((seq!['₱'], Seq::<char>::empty()))
    } else if code == "CZK"@ {
        Some((Seq::<char>::empty(), seq![' ', 'K', 'č']))
    } else if code == "HUF"@ {
        Some((Seq::<char>::empty(), seq![' ', 'F', 't']))
    } else if code == "RON"@ {
        Some((Seq::<char>::empty(), seq![' ', 'l', 'e', 'i']))
    } else if code == "BGN"@ {
        Some((Seq::<char>::empty(), seq![' ', 'л', 'в']))
    } else if code == "HRK"@ {
        Some((Seq::<char>::empty(), seq![' ', 'k', 'n']))
    } else if code == "UAH"@ {
        Some((seq!['₴'], Seq::<char>::empty()))
    } else if code == "VND"@ {
        Some((Seq::<char>::empty(), seq!['₫']))
    } else if code == "PEN"@ {
        Some((seq!['S', '/', '.', ' '], Seq::<char>::empty()))
    } else if code == "EGP"@ {
        Some((seq!['L', 'E', ' '], Seq::<char>::empty()))
    } else if code == "NGN"@ {
        Some((seq!['₦'], Seq::<char>::empty()))
    } else if code == "KES"@ {
        Some((seq!['K', 'S', 'h'], Seq::<char>::empty()))
    } else if code == "SAR"@ {
        Some((Seq::<char>::empty(), seq![' ', 'S', 'R']))
    } else if code == "QAR"@ {
        Some((seq!['Q', 'R', ' '], Seq::<char>::empty()))
    } else {
        None
    }
}

/// Text that holds no `{`.
pub open spec fn brace_free(s: Seq<char>) -> bool {
    forall|i: int| 0 <= i < s.len() ==> s[i] != '{'
}

proof fn lemma_format_is_marks(code: Seq<char>)
    ensures
        money_format(code) is Some <==> currency_marks(code) is Some,
        currency_marks(code) matches Some((b, a)) ==> money_format(code) == Some(b + "{amount}"@ + a)
            && brace_free(b) && brace_free(a),
{
    reveal_strlit("{amount}");
    if code == "USD"@ || code == "AUD"@ || code == "CAD"@ || code == "NZD"@ || code == "SGD"@ || code == "HKD"@ || code == "TWD"@ || code == "ARS"@ || code == "CLP"@ || code == "COP"@ {
        reveal_strlit("${amount}");
        assert("${amount}"@ =~= seq!['$'] + "{amount}"@ + Seq::<char>::empty());
    } else if code == "MXN"@ {
        reveal_strlit("$ {amount}");
        assert("$ {amount}"@ =~= seq!['$', ' '] + "{amount}"@ + Seq::<char>::empty());
    } else if code == "EUR"@ {
        reveal_strlit("€{amount}");
        assert("€{amount}"@ =~= seq!['€'] + "{amount}"@ + Seq::<char>::empty());
    } else if code == "GBP"@ {
        reveal_strlit("£{amount}");
        assert("£{amount}"@ =~= seq!['£'] + "{amount}"@ + Seq::<char>::empty());
    } else if code == "JPY"@ || code == "CNY"@ {
        reveal_strlit("¥{amount}");
        assert("¥{amount}"@ =~= seq!['¥'] + "{amount}"@ + Seq::<char>::empty());
    } else if code == "INR"@ {
        reveal_strlit("Rs. {amount}");
        assert("Rs. {amount}"@ =~= seq!['R', 's', '.', ' '] + "{amount}"@ + Seq::<char>::empty());
    } else if code == "CHF"@ {
        reveal_strlit("SFr. {amount}");
        assert("SFr. {amount}"@ =~= seq!['S', 'F', 'r', '.', ' '] + "{amount}"@ + Seq::<char>::empty());
    } else if code == "SEK"@ {
        reveal_strlit("{amount} kr");
        assert("{amount} kr"@ =~= Seq::<char>::empty() + "{amount}"@ + seq![' ', 'k', 'r']);
    } else if code == "NOK"@ {
        reveal_strlit("kr {amount}");
        assert("kr {amount}"@ =~= seq!['k', 'r', ' '] + "{amount}"@ + Seq::<char>::empty());
    } else if code == "DKK"@ {
        reveal_strlit("{amount}kr");
        assert("{amount}kr"@ =~= Seq::<char>::empty() + "{amount}"@ + seq!['k', 'r']);
    } else if code == "ZAR"@ {
        reveal_strlit("R {amount}");
        assert("R {amount}"@ =~= seq!['R', ' '] + "{amount}"@ + Seq::<char>::empty());
    } else if code == "BRL"@ {
        reveal_strlit("R$ {amount}");
        assert("R$ {amount}"@ =~= seq!['R', '$', ' '] + "{amount}"@ + Seq::<char>::empty());
    } else if code == "PLN"@ {
        reveal_strlit("{amount} zl");
        assert("{amount} zl"@ =~= Seq::<char>::empty() + "{amount}"@ + seq![' ', 'z', 'l']);
    } else if code == "RUB"@ {
        reveal_strlit("{amount} руб");
        assert("{amount} руб"@ =~= Seq::<char>::empty() + "{amount}"@ + seq![' ', 'р', 'у', 'б']);
    } else if code == "TRY"@ {
        reveal_strlit("{amount}TL");
        assert("{amount}TL"@ =~= Seq::<char>::empty() + "{amount}"@ + seq!['T', 'L']);
    } else if code == "AED"@ {
        reveal_strlit("Dhs. {amount}");
        assert("Dhs. {amount}"@ =~= seq!['D', 'h', 's', '.', ' '] + "{amount}"@ + Seq::<char>::empty());
    } else if code == "ILS"@ {
        reveal_strlit("{amount} NIS");
        assert("{amount} NIS"@ =~= Seq::<char>::empty() + "{amount}"@ + seq![' ', 'N', 'I', 'S']);
    } else if code == "KRW"@ {
        reveal_strlit("₩{amount}");
        assert("₩{amount}"@ =~= seq!['₩'] + "{amount}"@ + Seq::<char>::empty());
    } else if code == "THB"@ {
        reveal_strlit("{amount} ฿");
        assert("{amount} ฿"@ =~= Seq::<char>::empty() + "{amount}"@ + seq![' ', '฿']);
    } else if code == "IDR"@ {
        reveal_strlit("Rp {amount}");
        assert("Rp {amount}"@ =~= seq!['R', 'p', ' '] + "{amount}"@ + Seq::<char>::empty());
    } else if code == "MYR"@ {
        reveal_strlit("RM{amount} MYR");
        assert("RM{amount} MYR"@ =~= seq!['R', 'M'] + "{amount}"@ + seq![' ', 'M', 'Y', 'R']);
    } else if code == "PHP"@ {
        reveal_strlit("₱{amount}");
        assert("₱{amount}"@ =~= seq!['₱'] + "{amount}"@ + Seq::<char>::empty());
    } else if code == "CZK"@ {
        reveal_strlit("{amount} Kč");
        assert("{amount} Kč"@ =~= Seq::<char>::empty() + "{amount}"@ + seq![' ', 'K', 'č']);
    } else if code == "HUF"@ {
        reveal_strlit("{amount} Ft");
        assert("{amount} Ft"@ =~= Seq::<char>::empty() + "{amount}"@ + seq![' ', 'F', 't']);
    } else if code == "RON"@ {
        reveal_strlit("{amount} lei");
        assert("{amount} lei"@ =~= Seq::<char>::empty() + "{amount}"@ + seq![' ', 'l', 'e', 'i']);
    } else if code == "BGN"@ {
        reveal_strlit("{amount} лв");
        assert("{amount} лв"@ =~= Seq::<char>::empty() + "{amount}"@ + seq![' ', 'л', 'в']);
    } else if code == "HRK"@ {
        reveal_strlit("{amount} kn");
        assert("{amount} kn"@ =~= Seq::<char>::empty() + "{amount}"@ + seq![' ', 'k', 'n']);
    } else if code == "UAH"@ {
        reveal_strlit("₴{amount}");
        assert("₴{amount}"@ =~= seq!['₴'] + "{amount}"@ + Seq::<char>::empty());
    } else if code == "VND"@ {
        reveal_strlit("{amount}₫");
        assert("{amount}₫"@ =~= Seq::<char>::empty() + "{amount}"@ + seq!['₫']);
    } else if code == "PEN"@ {
        reveal_strlit("S/. {amount}");
        assert("S/. {amount}"@ =~= seq!['S', '/', '.', ' '] + "{amount}"@ + Seq::<char>::empty());
    } else if code == "EGP"@ {
        reveal_strlit("LE {amount}");
        assert("LE {amount}"@ =~= seq!['L', 'E', ' '] + "{amount}"@ + Seq::<char>::empty());
    } else if code == "NGN"@ {
        reveal_strlit("₦{amount}");
        assert("₦{amount}"@ =~= seq!['₦'] + "{amount}"@ + Seq::<char>::empty());
    } else if code == "KES"@ {
        reveal_strlit("KSh{amount}");
        assert("KSh{amount}"@ =~= seq!['K', 'S', 'h'] + "{amount}"@ + Seq::<char>::empty());
    } else if code == "SAR"@ {
        reveal_strlit("{amount} SR");
        assert("{amount} SR"@ =~= Seq::<char>::empty() + "{amount}"@ + seq![' ', 'S', 'R']);
    } else if code == "QAR"@ {
        reveal_strlit("QR {amount}");
        assert("QR {amount}"@ =~= seq!['Q', 'R', ' '] + "{amount}"@ + Seq::<char>::empty());
    }
}

proof fn lemma_replace_single(b: Seq<char>, a: Seq<char>, amount: Seq<char>)
    requires
        brace_free(b),
        brace_free(a),
    ensures
        replace_all(b + "{amount}"@ + a, "{amount}"@, amount) == b + amount + a,
{
    reveal_strlit("{amount}");
    let f = "{amount}"@;
    let t = b + f + a;
    assert forall|j: int| 0 <= j < b.len() implies !occurs_at(t, f, j) by {
        if occurs_at(t, f, j) {
            assert(t.subrange(j, j + f.len())[0] == t[j]);
            assert(t[j] == b[j]);
        }
    }
    assert(t.subrange(b.len() as int, b.len() as int + f.len() as int) =~= f);
    lemma_first_occurrence_is(t, f, 0, b.len() as int);
    assert(t.take(b.len() as int) =~= b);
    assert(t.skip(b.len() as int + f.len() as int) =~= a);
    assert forall|j: int| 0 <= j < a.len() implies !occurs_at(a, f, j) by {
        if occurs_at(a, f, j) {
            assert(a.subrange(j, j + f.len())[0] == a[j]);
        }
    }
    lemma_first_occurrence_is(a, f, 0, a.len() as int);
    assert(split_seq(a, f) =~= seq![a]);
    assert(split_seq(t, f) =~= seq![b, a]);
    let parts = seq![b, a];
    assert(parts.drop_last() =~= seq![b]);
    assert(join(seq![b], amount) == b);
    assert(join(parts, amount) == join(parts.drop_last(), amount) + amount + parts.last());
    assert(join(parts, amount) =~= b + amount + a);
}

/// Law: an amount in an accepted currency is written once, unchanged,
/// between that currency's own marks (for example `£` before a pound
/// amount, ` kr` after a Swedish one); a currency is accepted exactly when
/// it has marks.
pub proof fn law_money_text_is_the_amount_between_the_currency_marks(code: Seq<char>, amount: Seq<char>)
    ensures
        money_text_of(code, amount) is Ok <==> currency_marks(code) is Some,
        currency_marks(code) matches Some((before, after)) ==> money_text_of(code, amount) == Ok::<
            Seq<char>,
            Seq<char>,
        >(before + amount + after),
{
    lemma_format_is_marks(code);
    match currency_marks(code) {
        Some((b, a)) => lemma_replace_single(b, a, amount),
        None => {},
    }
}

/// The parameters of an `item_price` value
/// `profile_id::currency_from::currency_to::discount`: the discount (an
/// integer after trimming), then the two currency codes.
pub open spec fn price_params(params: Seq<char>) -> Result<(int, Seq<char>, Seq<char>), Seq<char>> {
    let parts = split_seq(params, "::"@);
    if parts.len() < 4 || parse_int(trim(parts[3])) is None {
        Err("invalid item_price discount parameter"@)
    } else {
        Ok((parse_int(trim(parts[3]))->0, parts[1], parts[2]))
    }
}

/// Reads the discount and the currency codes of an `item_price` value.
pub fn item_price_params(params: &str) -> (r: Result<(i64, String, String), String>)
    ensures
        match r {
            Ok((d, f, t)) => price_params(params@) == Ok::<(int, Seq<char>, Seq<char>), Seq<char>>(
                (d as int, f@, t@),
            ),
            Err(m) => price_params(params@) == Err::<(int, Seq<char>, Seq<char>), Seq<char>>(m@),
        },
{
    let cs = chars_of(params);
    let parts = split_on(&cs, &[':', ':']);
    proof {
        reveal_strlit("::");
    }
    assert([':', ':']@ =~= "::"@);
    let ghost views = parts@.map_values(|p: Vec<char>| p@);
    if parts.len() < 4 {
        return Err(copy_str("invalid item_price discount parameter"));
    }
    assert(views[3] == parts@[3]@);
    let d = match parse_i64(&trim_chars(&parts[3])) {
        Some(d) => d,
        None => return Err(copy_str("invalid item_price discount parameter")),
    };
    assert(views[1] == parts@[1]@);
    assert(views[2] == parts@[2]@);
    Ok((d, string_of(&parts[1]), string_of(&parts[2])))
}

} // verus!
