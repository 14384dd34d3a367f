//! SQL literals, and statements with their parameters written into them.
//!
//! Several statements share one request when they have to commit together.
//! Placeholders are numbered per statement, so the parameters of such
//! statements are written into the text.

use vstd::prelude::*;

use crate::json::{
    json_text, json_to_string, json_views, number_text, push_number_text, FloatView, Json, JsonView,
    Number, NumberView,
};
use crate::text::{chars_of, decimal, hex_pair, in_base, numeral, push_hex_pair};
use crate::value::{blob_json, integer_json};

verus! {

/// `s` with every quote of this kind doubled.
pub open spec fn doubled(s: Seq<char>, quote: char) -> Seq<char>
    decreases s.len(),
{
    if s.len() == 0 {
        Seq::empty()
    } else if s.last() == quote {
        doubled(s.drop_last(), quote).push(quote).push(quote)
    } else {
        doubled(s.drop_last(), quote).push(s.last())
    }
}

/// `s` as an SQL string literal.
pub open spec fn string_literal(s: Seq<char>) -> Seq<char> {
    seq!['\''] + doubled(s, '\'') + seq!['\'']
}

/// The hexadecimal digits that an array's item adds to a blob literal.
pub open spec fn blob_digits_of(item: JsonView) -> Seq<char> {
    match item {
        JsonView::Number(NumberView::Integer(n)) => if 0 <= n <= u64::MAX {
            hex_pair(n as nat)
        } else {
            Seq::empty()
        },
        _ => Seq::empty(),
    }
}

/// The hexadecimal digits of a blob literal.
pub open spec fn blob_digits(items: Seq<JsonView>) -> Seq<char>
    decreases items.len(),
{
    if items.len() == 0 {
        Seq::empty()
    } else {
        blob_digits(items.drop_last()) + blob_digits_of(items.last())
    }
}

/// A JSON value as an SQL literal.
pub open spec fn literal(value: JsonView) -> Seq<char> {
    match value {
        JsonView::Null => "NULL"@,
        JsonView::Bool(b) => if b {
            "1"@
        } else {
            "0"@
        },
        JsonView::Number(n) => number_text(n),
        JsonView::String(s) => string_literal(s),
        JsonView::Array(items) => "X'"@ + blob_digits(items) + seq!['\''],
        JsonView::Object(_) => string_literal(json_text(value)),
    }
}

/// Whether a character is an ASCII digit.
pub open spec fn is_digit(c: char) -> bool {
    '0' <= c <= '9'
}

/// How many digits `s` starts with.
pub open spec fn digit_run(s: Seq<char>) -> nat
    decreases s.len(),
{
    if s.len() > 0 && is_digit(s[0]) {
        1 + digit_run(s.skip(1))
    } else {
        0
    }
}

/// The number that a run of digits denotes.
pub open spec fn digits_value(digits: Seq<char>) -> nat
    decreases digits.len(),
{
    if digits.len() == 0 {
        0
    } else {
        digits_value(digits.drop_last()) * 10 + (digits.last() as nat - '0' as nat) as nat
    }
}

/// What stands for the placeholder with these digits: the parameter of that
/// number, counted from 1, or `NULL` where there is none.
pub open spec fn placeholder(digits: Seq<char>, params: Seq<JsonView>) -> Seq<char> {
    let n = digits_value(digits);
    if 1 <= n <= params.len() {
        literal(params[n - 1])
    } else {
        "NULL"@
    }
}

/// `sql` with a literal in place of every question mark and the digits that
/// follow it.
pub open spec fn inlined(sql: Seq<char>, params: Seq<JsonView>) -> Seq<char>
    decreases sql.len(),
{
    if sql.len() == 0 {
        Seq::empty()
    } else if sql[0] != '?' {
        seq![sql[0]] + inlined(sql.skip(1), params)
    } else {
        let n = digit_run(sql.skip(1));
        proof {
            lemma_digit_run_bound(sql.skip(1));
        }
        placeholder(sql.skip(1).take(n as int), params) + inlined(sql.skip(1 + n as int), params)
    }
}

/// A text starts with at most as many digits as it has characters.
pub proof fn lemma_digit_run_bound(s: Seq<char>)
    ensures
        digit_run(s) <= s.len(),
    decreases s.len(),
{
    if s.len() > 0 {
        lemma_digit_run_bound(s.skip(1));
    }
}

proof fn lemma_digit_run(s: Seq<char>, n: nat)
    requires
        n <= s.len(),
        forall|i: int| 0 <= i < n ==> is_digit(#[trigger] s[i]),
        n < s.len() ==> !is_digit(s[n as int]),
    ensures
        digit_run(s) == n,
    decreases n,
{
    if n > 0 {
        let rest = s.skip(1);
        assert forall|i: int| 0 <= i < n - 1 implies is_digit(#[trigger] rest[i]) by {
            assert(rest[i] == s[i + 1]);
        }
        lemma_digit_run(rest, (n - 1) as nat);
    }
}

/// Appends `s` with every quote of this kind doubled.
pub fn push_doubled(out: &mut String, s: &str, quote: char)
    ensures
        final(out)@ == old(out)@ + doubled(s@, quote),
{
    let chars = chars_of(s);
    let mut i: usize = 0;
    while i < chars.len()
        invariant
            i <= chars@.len(),
            out@ == old(out)@ + doubled(chars@.take(i as int), quote),
        decreases chars@.len() - i,
    {
        proof {
            assert(chars@.take(i + 1).drop_last() =~= chars@.take(i as int));
        }
        let c = chars[i];
        if c == quote {
            out.push(quote);
        }
        out.push(c);
        i += 1;
    }
    proof {
        assert(chars@.take(i as int) =~= chars@);
    }
}

/// Appends `s` as an SQL string literal.
fn push_string_literal(out: &mut String, s: &str)
    ensures
        final(out)@ == old(out)@ + string_literal(s@),
{
    out.push('\'');
    push_doubled(out, s, '\'');
    out.push('\'');
}

/// Appends a JSON value as an SQL literal.
fn push_literal(out: &mut String, value: &Json)
    ensures
        final(out)@ == old(out)@ + literal(value@),
{
    match value {
        Json::Null => out.append("NULL"),
        Json::Bool(b) => if *b {
            out.append("1")
        } else {
            out.append("0")
        },
        Json::Number(n) => push_number_text(out, n),
        Json::String(s) => push_string_literal(out, s.as_str()),
        Json::Array(items) => {
            let ghost views = json_views(items@);
            assert(value@->Array_0 =~= views);
            out.append("X'");
            let mut i: usize = 0;
            while i < items.len()
                invariant
                    i <= items@.len(),
                    views == json_views(items@),
                    out@ == old(out)@ + "X'"@ + blob_digits(views.take(i as int)),
                decreases items@.len() - i,
            {
                proof {
                    assert(views.take(i + 1).drop_last() =~= views.take(i as int));
                    assert(views[i as int] == items@[i as int]@);
                }
                match &items[i] {
                    Json::Number(Number::Integer(n)) => {
                        if 0 <= *n && *n <= u64::MAX as i128 {
                            push_hex_pair(out, *n as u64);
                        }
                    },
                    _ => {},
                }
                i += 1;
            }
            proof {
                assert(views.take(i as int) =~= views);
            }
            out.push('\'');
        },
        Json::Object(_) => {
            let text = json_to_string(value);
            push_string_literal(out, text.as_str());
        },
    }
}

/// A JSON value as an SQL literal.
pub fn sql_literal(value: &Json) -> (r: String)
    ensures
        r@ == literal(value@),
{
    let mut out = String::new();
    push_literal(&mut out, value);
    out
}

/// Writes literals in place of the `?N` placeholders, so that several
/// statements can share one request.
pub fn inline_params(sql: &str, params: &Vec<Json>) -> (r: String)
    ensures
        r@ == inlined(sql@, json_views(params@)),
{
    let chars = chars_of(sql);
    let ghost views = json_views(params@);
    let mut out = String::new();
    let mut i: usize = 0;
    proof {
        assert(chars@.skip(0) =~= chars@);
    }
    while i < chars.len()
        invariant
            i <= chars@.len(),
            views == json_views(params@),
            inlined(chars@, views) == out@ + inlined(chars@.skip(i as int), views),
        decreases chars@.len() - i,
    {
        let c = chars[i];
        let ghost tail = chars@.skip(i as int);
        let ghost before = out@;
        let ghost mut added = seq![c];
        i += 1;
        if c != '?' {
            out.push(c);
            proof {
                assert(tail.skip(1) =~= chars@.skip(i as int));
            }
        } else {
            let start: usize = i;
            let mut number: usize = 0;
            let mut too_large: bool = false;
            while i < chars.len() && '0' <= chars[i] && chars[i] <= '9'
                invariant
                    start <= i <= chars@.len(),
                    forall|k: int| start <= k < i ==> is_digit(#[trigger] chars@[k]),
                    !too_large ==> number == digits_value(chars@.subrange(start as int, i as int)),
                    too_large ==> digits_value(chars@.subrange(start as int, i as int))
                        > usize::MAX,
                decreases chars@.len() - i,
            {
                proof {
                    assert(chars@.subrange(start as int, i + 1).drop_last() =~= chars@.subrange(
                        start as int,
                        i as int,
                    ));
                }
                let digit: usize = (chars[i] as u32 - '0' as u32) as usize;
                if !too_large {
                    if number > (usize::MAX - digit) / 10 {
                        too_large = true;
                    } else {
                        number = number * 10 + digit;
                    }
                }
                i += 1;
            }
            proof {
                let n = (i - start) as nat;
                let after = tail.skip(1);
                assert(after =~= chars@.skip(start as int));
                assert forall|k: int| 0 <= k < n implies is_digit(#[trigger] after[k]) by {
                    assert(after[k] == chars@[start + k]);
                }
                lemma_digit_run(after, n);
                assert(after.take(n as int) =~= chars@.subrange(start as int, i as int));
                assert(tail.skip(1 + n as int) =~= chars@.skip(i as int));
                added = placeholder(chars@.subrange(start as int, i as int), views);
            }
            let count: usize = params.len();
            if !too_large && 1 <= number && number <= count {
                assert(views[number - 1] == params@[number - 1]@);
                push_literal(&mut out, &params[number - 1]);
            } else {
                out.append("NULL");
            }
        }
        proof {
            assert(inlined(tail, views) == added + inlined(chars@.skip(i as int), views));
            assert(out@ =~= before + added);
            assert(before + (added + inlined(chars@.skip(i as int), views)) =~= out@ + inlined(
                chars@.skip(i as int),
                views,
            ));
        }
    }
    proof {
        assert(chars@.skip(i as int) =~= Seq::<char>::empty());
    }
    out
}

/// A statement without placeholders is kept as it is.
pub proof fn text_without_placeholders_is_kept(sql: Seq<char>, params: Seq<JsonView>)
    requires
        !sql.contains('?'),
    ensures
        inlined(sql, params) == sql,
    decreases sql.len(),
{
    if sql.len() > 0 {
        assert(sql.contains(sql[0]));
        assert forall|i: int| 0 <= i < sql.skip(1).len() implies sql.skip(1)[i] != '?' by {
            assert(sql.contains(sql[i + 1]));
        }
        text_without_placeholders_is_kept(sql.skip(1), params);
        assert(seq![sql[0]] + sql.skip(1) =~= sql);
    }
}

proof fn lemma_digit_run_append(s: Seq<char>, rest: Seq<char>)
    requires
        rest.len() == 0 || !is_digit(rest[0]),
    ensures
        digit_run(s + rest) == digit_run(s),
    decreases s.len(),
{
    if s.len() > 0 {
        assert((s + rest).skip(1) =~= s.skip(1) + rest);
        lemma_digit_run_append(s.skip(1), rest);
    } else {
        assert(s + rest =~= rest);
    }
}

/// Where no placeholder is cut in two, the halves of a statement can be
/// written one after the other.
pub proof fn halves_are_inlined_alike(first: Seq<char>, second: Seq<char>, params: Seq<JsonView>)
    requires
        second.len() == 0 || !is_digit(second[0]),
    ensures
        inlined(first + second, params) == inlined(first, params) + inlined(second, params),
    decreases first.len(),
{
    let whole = first + second;
    if first.len() == 0 {
        assert(whole =~= second);
        assert(inlined(first, params) + inlined(second, params) =~= inlined(second, params));
    } else if first[0] != '?' {
        assert(whole.skip(1) =~= first.skip(1) + second);
        halves_are_inlined_alike(first.skip(1), second, params);
        assert(seq![first[0]] + (inlined(first.skip(1), params) + inlined(second, params))
            =~= seq![first[0]] + inlined(first.skip(1), params) + inlined(second, params));
    } else {
        let tail = first.skip(1);
        let n = digit_run(tail);
        lemma_digit_run_bound(tail);
        assert(whole.skip(1) =~= tail + second);
        lemma_digit_run_append(tail, second);
        assert((tail + second).take(n as int) =~= tail.take(n as int));
        assert(whole.skip(1 + n as int) =~= first.skip(1 + n as int) + second);
        halves_are_inlined_alike(first.skip(1 + n as int), second, params);
        let filled = placeholder(tail.take(n as int), params);
        let rest = inlined(first.skip(1 + n as int), params);
        assert(filled + (rest + inlined(second, params)) =~= filled + rest + inlined(
            second,
            params,
        ));
    }
}

proof fn lemma_decimal_digits(n: nat)
    ensures
        in_base(n, 10).len() > 0,
        forall|i: int| 0 <= i < in_base(n, 10).len() ==> is_digit(#[trigger] in_base(n, 10)[i]),
        digits_value(in_base(n, 10)) == n,
    decreases n,
{
    let digits = in_base(n, 10);
    if n < 10 {
        assert(digits.drop_last() =~= Seq::<char>::empty());
        assert(digits_value(digits.drop_last()) == 0);
    } else {
        lemma_decimal_digits(n / 10);
        assert(digits.drop_last() =~= in_base(n / 10, 10));
        assert forall|i: int| 0 <= i < digits.len() implies is_digit(#[trigger] digits[i]) by {
            if i < digits.len() - 1 {
                assert(digits[i] == in_base(n / 10, 10)[i]);
            }
        }
    }
}

/// The placeholder `?k` is replaced by the k-th parameter where it stands, or
/// by `NULL` where there is none, and what stands around it is written as if
/// it stood alone.
pub proof fn placeholder_takes_its_parameter(
    before: Seq<char>,
    k: nat,
    after: Seq<char>,
    params: Seq<JsonView>,
)
    requires
        after.len() == 0 || !is_digit(after[0]),
    ensures
        inlined(before + (seq!['?'] + decimal(k as int)) + after, params) == inlined(before, params)
            + (if 1 <= k <= params.len() {
            literal(params[k - 1])
        } else {
            "NULL"@
        }) + inlined(after, params),
{
    let digits = decimal(k as int);
    let mark = seq!['?'] + digits;
    lemma_decimal_digits(k);
    assert(mark.skip(1) =~= digits);
    lemma_digit_run(digits, digits.len());
    assert(digits.take(digits.len() as int) =~= digits);
    let filled = placeholder(digits, params);
    let nothing = mark.skip(1 + digits.len() as int);
    assert(inlined(nothing, params) =~= Seq::<char>::empty());
    assert(mark[0] == '?');
    assert(inlined(mark, params) == filled + inlined(nothing, params));
    assert(filled + inlined(nothing, params) =~= filled);
    halves_are_inlined_alike(before, mark, params);
    halves_are_inlined_alike(before + mark, after, params);
}

/// What SQL reads between quotes, from behind the opening quote: what they
/// enclose, and what follows the closing quote. `None` where there is no
/// closing quote.
pub open spec fn read_enclosed(text: Seq<char>, quote: char) -> Option<(Seq<char>, Seq<char>)>
    decreases text.len(),
{
    if text.len() == 0 {
        None
    } else if text[0] == quote && !(text.len() > 1 && text[1] == quote) {
        Some((Seq::empty(), text.skip(1)))
    } else {
        let width: int = if text[0] == quote {
            2
        } else {
            1
        };
        match read_enclosed(text.skip(width), quote) {
            None => None,
            Some((string, rest)) => Some((seq![text[0]] + string, rest)),
        }
    }
}

/// How a character is written between quotes.
spec fn doubled_char(c: char, quote: char) -> Seq<char> {
    if c == quote {
        seq![quote, quote]
    } else {
        seq![c]
    }
}

proof fn lemma_doubled_front(s: Seq<char>, quote: char)
    requires
        s.len() > 0,
    ensures
        doubled(s, quote) == doubled_char(s[0], quote) + doubled(s.skip(1), quote),
    decreases s.len(),
{
    if s.len() == 1 {
        assert(s.drop_last() =~= Seq::<char>::empty());
        assert(s.skip(1) =~= Seq::<char>::empty());
        assert(doubled(s, quote) =~= doubled_char(s[0], quote) + doubled(s.skip(1), quote));
    } else {
        lemma_doubled_front(s.drop_last(), quote);
        assert(s.drop_last().skip(1) =~= s.skip(1).drop_last());
        assert(s.skip(1).last() == s.last());
        assert(doubled(s, quote) =~= doubled_char(s[0], quote) + doubled(s.skip(1), quote));
    }
}

/// SQL reads what stands between quotes as what it was written for, and the
/// closing quote is where it was written, whatever the quotes enclose.
pub proof fn enclosed_reads_back(s: Seq<char>, quote: char, rest: Seq<char>)
    requires
        rest.len() == 0 || rest[0] != quote,
    ensures
        read_enclosed(doubled(s, quote) + seq![quote] + rest, quote) == Some((s, rest)),
    decreases s.len(),
{
    let text = doubled(s, quote) + seq![quote] + rest;
    if s.len() == 0 {
        assert(text.skip(1) =~= rest);
    } else {
        let tail = s.skip(1);
        lemma_doubled_front(s, quote);
        enclosed_reads_back(tail, quote, rest);
        let next = doubled(tail, quote) + seq![quote] + rest;
        if s[0] == quote {
            assert(text[0] == quote && text[1] == quote);
            assert(text.skip(2) =~= next);
        } else {
            assert(text[0] == s[0]);
            assert(text.skip(1) =~= next);
        }
        assert(seq![s[0]] + tail =~= s);
    }
}

/// What holds no quote is written between quotes as it is.
pub proof fn unquoted_is_kept(s: Seq<char>, quote: char)
    requires
        !s.contains(quote),
    ensures
        doubled(s, quote) == s,
    decreases s.len(),
{
    if s.len() > 0 {
        assert(s.contains(s.last()));
        assert forall|i: int| 0 <= i < s.drop_last().len() implies s.drop_last()[i] != quote by {
            assert(s.contains(s[i]));
        }
        unquoted_is_kept(s.drop_last(), quote);
        assert(s.drop_last().push(s.last()) =~= s);
    }
}

/// SQL reads a string literal as the string that it was written for, and its
/// end is where it was written to end, whatever the string holds.
pub proof fn string_literal_reads_back(s: Seq<char>, rest: Seq<char>)
    requires
        rest.len() == 0 || rest[0] != '\'',
    ensures
        string_literal(s)[0] == '\'',
        read_enclosed((string_literal(s) + rest).skip(1), '\'') == Some((s, rest)),
{
    enclosed_reads_back(s, '\'', rest);
    assert((string_literal(s) + rest).skip(1) =~= doubled(s, '\'') + seq!['\''] + rest);
}

/// The number that a hexadecimal digit denotes.
pub open spec fn hex_value(c: char) -> int {
    if is_digit(c) {
        c as int - 48
    } else {
        c as int - 87
    }
}

/// The bytes that pairs of hexadecimal digits denote.
pub open spec fn read_hex(digits: Seq<char>) -> Seq<u8>
    decreases digits.len(),
{
    if digits.len() < 2 {
        Seq::empty()
    } else {
        let n = digits.len();
        read_hex(digits.take(n - 2)).push(
            (hex_value(digits[n - 2]) * 16 + hex_value(digits[n - 1])) as u8,
        )
    }
}

proof fn lemma_hex_pair(byte: u8)
    ensures
        hex_pair(byte as nat).len() == 2,
        hex_value(hex_pair(byte as nat)[0]) * 16 + hex_value(hex_pair(byte as nat)[1]) == byte,
{
    let n = byte as nat;
    reveal_with_fuel(in_base, 2);
    if n < 16 {
        assert(hex_pair(n) =~= seq!['0', numeral(n)]);
    } else {
        assert(hex_pair(n) =~= seq![numeral(n / 16), numeral(n % 16)]);
    }
}

proof fn lemma_blob_digits_read_back(bytes: Seq<u8>)
    ensures
        blob_digits(blob_json(bytes)->Array_0).len() == 2 * bytes.len(),
        read_hex(blob_digits(blob_json(bytes)->Array_0)) == bytes,
    decreases bytes.len(),
{
    let items = blob_json(bytes)->Array_0;
    let digits = blob_digits(items);
    if bytes.len() == 0 {
        assert(digits =~= Seq::<char>::empty());
        assert(read_hex(digits) =~= bytes);
    } else {
        let fewer = bytes.drop_last();
        lemma_blob_digits_read_back(fewer);
        lemma_hex_pair(bytes.last());
        assert(items.drop_last() =~= blob_json(fewer)->Array_0);
        assert(items.last() == integer_json(bytes.last() as int));
        let front = blob_digits(items.drop_last());
        let pair = hex_pair(bytes.last() as nat);
        assert(digits =~= front + pair);
        assert(digits.take(digits.len() - 2) =~= front);
        assert(digits[digits.len() - 2] == pair[0]);
        assert(digits[digits.len() - 1] == pair[1]);
        assert(read_hex(digits) =~= bytes);
    }
}

/// A blob literal holds two hexadecimal digits for each byte, and they denote
/// the bytes that it was written for.
pub proof fn blob_literal_reads_back(bytes: Seq<u8>)
    ensures
        literal(blob_json(bytes)) == "X'"@ + blob_digits(blob_json(bytes)->Array_0) + seq!['\''],
        blob_digits(blob_json(bytes)->Array_0).len() == 2 * bytes.len(),
        read_hex(blob_digits(blob_json(bytes)->Array_0)) == bytes,
{
    lemma_blob_digits_read_back(bytes);
}

/// The integer that a numeral with an optional minus sign denotes.
pub open spec fn read_integer(text: Seq<char>) -> int {
    if text.len() > 0 && text[0] == '-' {
        -(digits_value(text.skip(1)) as int)
    } else {
        digits_value(text) as int
    }
}

/// An integer's literal denotes the integer.
pub proof fn integer_literal_reads_back(n: int)
    ensures
        read_integer(literal(integer_json(n))) == n,
{
    if n < 0 {
        lemma_decimal_digits((-n) as nat);
        assert(decimal(n).skip(1) =~= in_base((-n) as nat, 10));
    } else {
        lemma_decimal_digits(n as nat);
        assert(is_digit(decimal(n)[0]));
    }
}

/// One more character is written as it is, and twice if it is the quote.
pub proof fn doubled_grows(s: Seq<char>, c: char, quote: char)
    ensures
        doubled(Seq::empty(), quote).len() == 0,
        c != quote ==> doubled(s.push(c), quote) == doubled(s, quote) + seq![c],
        c == quote ==> doubled(s.push(c), quote) == doubled(s, quote) + seq![c, c],
{
    assert(s.push(c).drop_last() =~= s);
    assert(doubled(s, quote).push(c) =~= doubled(s, quote) + seq![c]);
    assert(doubled(s, quote).push(c).push(c) =~= doubled(s, quote) + seq![c, c]);
}

/// A float's literal is its whole text, sign and all, and an integer's is its
/// decimal numeral. The other scalars have the literals that SQLite knows, and
/// an object is the string of its JSON text.
pub proof fn scalar_literals(
    f: FloatView,
    n: int,
    s: Seq<char>,
    entries: Seq<(Seq<char>, JsonView)>,
)
    ensures
        literal(JsonView::Number(NumberView::Float(f))) == f.text,
        literal(JsonView::Number(NumberView::Integer(n))) == decimal(n),
        literal(JsonView::Null) == "NULL"@,
        literal(JsonView::Bool(true)) == "1"@,
        literal(JsonView::Bool(false)) == "0"@,
        literal(JsonView::String(s)) == seq!['\''] + doubled(s, '\'') + seq!['\''],
        literal(JsonView::Object(entries)) == literal(
            JsonView::String(json_text(JsonView::Object(entries))),
        ),
        string_literal(s) == literal(JsonView::String(s)),
{
}

/// An array's literal is a blob's. One more item adds its hexadecimal digits
/// before the closing quote if it is an integer from 0 to 2^64 - 1, and nothing
/// otherwise.
pub proof fn blob_literal_grows(items: Seq<JsonView>, item: JsonView)
    ensures
        literal(JsonView::Array(Seq::empty())) == seq!['X', '\'', '\''],
        match item {
            JsonView::Number(NumberView::Integer(n)) => if 0 <= n <= 0xffff_ffff_ffff_ffff {
                literal(JsonView::Array(items.push(item))) == literal(
                    JsonView::Array(items),
                ).drop_last() + hex_pair(n as nat) + seq!['\'']
            } else {
                literal(JsonView::Array(items.push(item))) == literal(JsonView::Array(items))
            },
            _ => literal(JsonView::Array(items.push(item))) == literal(JsonView::Array(items)),
        },
{
    reveal_strlit("X'");
    assert(items.push(item).drop_last() =~= items);
    assert(literal(JsonView::Array(Seq::empty())) =~= seq!['X', '\'', '\'']);
    assert(literal(JsonView::Array(items.push(item))) =~= literal(
        JsonView::Array(items),
    ).drop_last() + blob_digits_of(item) + seq!['\'']);
    assert(blob_digits_of(item).len() == 0 ==> literal(
        JsonView::Array(items),
    ).drop_last() + blob_digits_of(item) + seq!['\''] =~= literal(JsonView::Array(items)));
}

/// A run of digits denotes ten times what it denotes without its last digit,
/// and that digit.
pub proof fn digits_are_positional(digits: Seq<char>, c: char)
    ensures
        digits_value(Seq::empty()) == 0,
        is_digit(c) <==> 48 <= c as int <= 57,
        is_digit(c) ==> digits_value(digits.push(c)) == 10 * digits_value(digits) + (c as int - 48),
{
    assert(digits.push(c).drop_last() =~= digits);
}

/// A question mark and all digits behind it are replaced by the parameter of
/// the number that they denote, counted from 1, or by `NULL` where there is
/// none, and what stands around it is written as if it stood alone.
pub proof fn question_mark_takes_its_digits(
    before: Seq<char>,
    digits: Seq<char>,
    after: Seq<char>,
    params: Seq<JsonView>,
)
    requires
        forall|i: int| 0 <= i < digits.len() ==> '0' <= #[trigger] digits[i] <= '9',
        after.len() == 0 || !('0' <= after[0] <= '9'),
    ensures
        inlined(before + (seq!['?'] + digits) + after, params) == inlined(before, params) + (if 1
            <= digits_value(digits) <= params.len() {
            literal(params[digits_value(digits) - 1])
        } else {
            "NULL"@
        }) + inlined(after, params),
{
    let mark = seq!['?'] + digits;
    assert forall|i: int| 0 <= i < digits.len() implies is_digit(#[trigger] digits[i]) by {}
    assert(mark.skip(1) =~= digits);
    lemma_digit_run(digits, digits.len());
    assert(digits.take(digits.len() as int) =~= digits);
    let filled = placeholder(digits, params);
    let nothing = mark.skip(1 + digits.len() as int);
    assert(inlined(nothing, params) =~= Seq::<char>::empty());
    assert(mark[0] == '?');
    assert(inlined(mark, params) == filled + inlined(nothing, params));
    assert(filled + inlined(nothing, params) =~= filled);
    halves_are_inlined_alike(before, mark, params);
    halves_are_inlined_alike(before + mark, after, params);
}

} // verus!
