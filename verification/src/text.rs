//! Text building blocks: decimal and hexadecimal numerals, joining, trimming
//! and searching.

use vstd::prelude::*;

verus! {

/// `String::push` appends the character to the end of the string.
pub assume_specification[ std::string::String::push ](s: &mut std::string::String, c: char)
    ensures
        final(s)@ == old(s)@.push(c),
;

/// `char::is_whitespace` answers whether the character has Unicode's
/// `White_Space` property.
pub assume_specification[ char::is_whitespace ](c: char) -> (b: bool)
    ensures
        b == white_space(c),
;

/// Unicode's `White_Space` property.
pub open spec fn white_space(c: char) -> bool {
    ||| '\u{9}' <= c <= '\u{d}'
    ||| c == ' '
    ||| c == '\u{85}'
    ||| c == '\u{a0}'
    ||| c == '\u{1680}'
    ||| '\u{2000}' <= c <= '\u{200a}'
    ||| c == '\u{2028}'
    ||| c == '\u{2029}'
    ||| c == '\u{202f}'
    ||| c == '\u{205f}'
    ||| c == '\u{3000}'
}

/// The numeral for `d`, in lower case where it is a letter.
pub open spec fn numeral(d: nat) -> char {
    if d < 10 {
        (48 + d) as char
    } else {
        (87 + d) as char
    }
}

/// `n` in the given base, without leading zeros.
pub open spec fn in_base(n: nat, base: nat) -> Seq<char>
    decreases n,
{
    if base < 2 || n < base {
        seq![numeral(n)]
    } else {
        proof {
            assert(n / base < n) by (nonlinear_arith)
                requires
                    2 <= base <= n,
            ;
        }
        in_base(n / base, base).push(numeral(n % base))
    }
}

/// `n` in decimal, with a leading minus sign if it is negative.
pub open spec fn decimal(n: int) -> Seq<char> {
    if n < 0 {
        seq!['-'] + in_base((-n) as nat, 10)
    } else {
        in_base(n as nat, 10)
    }
}

/// `n` in lower-case hexadecimal, with at least two digits.
pub open spec fn hex_pair(n: nat) -> Seq<char> {
    if n < 16 {
        seq!['0'] + in_base(n, 16)
    } else {
        in_base(n, 16)
    }
}

/// The parts one after the other, with `separator` between neighbours.
pub open spec fn joined(parts: Seq<Seq<char>>, separator: Seq<char>) -> Seq<char>
    decreases parts.len(),
{
    if parts.len() == 0 {
        Seq::empty()
    } else if parts.len() == 1 {
        parts[0]
    } else {
        joined(parts.drop_last(), separator) + separator + parts.last()
    }
}

/// The parts, one after the other.
pub open spec fn concatenated(parts: Seq<Seq<char>>) -> Seq<char>
    decreases parts.len(),
{
    if parts.len() == 0 {
        Seq::empty()
    } else {
        concatenated(parts.drop_last()) + parts.last()
    }
}

/// `text` without the white space at its end.
pub open spec fn trimmed_end(text: Seq<char>) -> Seq<char>
    decreases text.len(),
{
    if text.len() > 0 && white_space(text.last()) {
        trimmed_end(text.drop_last())
    } else {
        text
    }
}

/// `text` without the slashes at its end.
pub open spec fn without_trailing_slashes(text: Seq<char>) -> Seq<char>
    decreases text.len(),
{
    if text.len() > 0 && text.last() == '/' {
        without_trailing_slashes(text.drop_last())
    } else {
        text
    }
}

/// Whether the last character is a semicolon.
pub open spec fn ends_in_semicolon(text: Seq<char>) -> bool {
    text.len() > 0 && text.last() == ';'
}

/// Whether `needle` occurs in `text`, starting at `at`.
pub open spec fn occurs_at(text: Seq<char>, needle: Seq<char>, at: int) -> bool {
    &&& 0 <= at <= text.len() - needle.len()
    &&& text.subrange(at, at + needle.len()) == needle
}

/// Whether `needle` occurs in `text`.
pub open spec fn occurs(text: Seq<char>, needle: Seq<char>) -> bool {
    exists|at: int| occurs_at(text, needle, at)
}

/// The characters of a string.
pub fn chars_of(s: &str) -> (r: Vec<char>)
    ensures
        r@ == s@,
{
    let mut out: Vec<char> = Vec::new();
    for c in it: s.chars()
        invariant
            out@ == it.seq().take(it.index() as int),
    {
        out.push(c);
    }
    out
}

/// Appends the characters from `from` up to `to`.
pub fn push_chars(out: &mut String, chars: &Vec<char>, from: usize, to: usize)
    requires
        from <= to <= chars@.len(),
    ensures
        final(out)@ == old(out)@ + chars@.subrange(from as int, to as int),
{
    let mut i: usize = from;
    while i < to
        invariant
            from <= i <= to <= chars@.len(),
            out@ == old(out)@ + chars@.subrange(from as int, i as int),
        decreases to - i,
    {
        out.push(chars[i]);
        i += 1;
    }
}

/// The numeral for `d`.
fn numeral_char(d: u8) -> (c: char)
    requires
        d < 16,
    ensures
        c == numeral(d as nat),
{
    if d < 10 {
        (48 + d) as char
    } else {
        (87 + d) as char
    }
}

/// Appends `n` in the given base.
fn push_in_base(out: &mut String, n: u128, base: u8)
    requires
        2 <= base <= 16,
    ensures
        final(out)@ == old(out)@ + in_base(n as nat, base as nat),
    decreases n,
{
    let wide: u128 = base as u128;
    if n >= wide {
        proof {
            assert(n / wide < n) by (nonlinear_arith)
                requires
                    n >= wide,
                    wide >= 2,
            ;
        }
        push_in_base(out, n / wide, base);
    }
    let d: u8 = (n % wide) as u8;
    proof {
        if n < wide {
            assert(n % wide == n) by (nonlinear_arith)
                requires
                    n < wide,
            ;
        }
    }
    out.push(numeral_char(d));
}

/// Appends `n` in decimal.
pub fn push_decimal(out: &mut String, n: i128)
    ensures
        final(out)@ == old(out)@ + decimal(n as int),
{
    if n < 0 {
        out.push('-');
        let magnitude: u128 = (-(n + 1)) as u128 + 1;
        push_in_base(out, magnitude, 10);
    } else {
        push_in_base(out, n as u128, 10);
    }
}

/// Appends `n` in lower-case hexadecimal, with at least two digits.
pub fn push_hex_pair(out: &mut String, n: u64)
    ensures
        final(out)@ == old(out)@ + hex_pair(n as nat),
{
    if n < 16 {
        out.push('0');
    }
    push_in_base(out, n as u128, 16);
}

/// `text` without the white space at its end.
pub fn trim_end(text: &str) -> (r: String)
    ensures
        r@ == trimmed_end(text@),
{
    let chars = chars_of(text);
    let mut end: usize = chars.len();
    proof {
        assert(chars@.take(end as int) =~= chars@);
    }
    while end > 0 && chars[end - 1].is_whitespace()
        invariant
            end <= chars@.len(),
            trimmed_end(chars@) == trimmed_end(chars@.take(end as int)),
        decreases end,
    {
        proof {
            assert(chars@.take(end as int).drop_last() =~= chars@.take(end - 1));
        }
        end -= 1;
    }
    let mut out = String::new();
    push_chars(&mut out, &chars, 0, end);
    proof {
        let kept = chars@.take(end as int);
        assert(kept.len() > 0 ==> kept.last() == chars@[end - 1]);
    }
    out
}

/// `text` without the slashes at its end.
pub fn trim_end_slashes(text: &str) -> (r: String)
    ensures
        r@ == without_trailing_slashes(text@),
{
    let chars = chars_of(text);
    let mut end: usize = chars.len();
    proof {
        assert(chars@.take(end as int) =~= chars@);
    }
    while end > 0 && chars[end - 1] == '/'
        invariant
            end <= chars@.len(),
            without_trailing_slashes(chars@) == without_trailing_slashes(chars@.take(end as int)),
        decreases end,
    {
        proof {
            assert(chars@.take(end as int).drop_last() =~= chars@.take(end - 1));
        }
        end -= 1;
    }
    let mut out = String::new();
    push_chars(&mut out, &chars, 0, end);
    proof {
        let kept = chars@.take(end as int);
        assert(kept.len() > 0 ==> kept.last() == chars@[end - 1]);
    }
    out
}

/// Whether `needle` occurs in `chars`, starting at `at`.
fn matches_at(chars: &Vec<char>, needle: &Vec<char>, at: usize) -> (r: bool)
    requires
        at + needle@.len() <= chars@.len(),
    ensures
        r == occurs_at(chars@, needle@, at as int),
{
    let len: usize = chars.len();
    let mut i: usize = 0;
    while i < needle.len()
        invariant
            i <= needle@.len(),
            at + needle@.len() <= chars@.len(),
            len == chars@.len(),
            forall|k: int| 0 <= k < i ==> chars@[at + k] == needle@[k],
        decreases needle@.len() - i,
    {
        if chars[at + i] != needle[i] {
            proof {
                let found = chars@.subrange(at as int, at + needle@.len());
                assert(found[i as int] != needle@[i as int]);
            }
            return false;
        }
        i += 1;
    }
    proof {
        assert(chars@.subrange(at as int, at + needle@.len()) =~= needle@);
    }
    true
}

/// Whether `needle` occurs in `text`.
pub fn contains(text: &str, needle: &str) -> (r: bool)
    ensures
        r == occurs(text@, needle@),
{
    let chars = chars_of(text);
    let wanted = chars_of(needle);
    if chars.len() < wanted.len() {
        return false;
    }
    let last: usize = chars.len() - wanted.len();
    let mut at: usize = 0;
    while at <= last
        invariant
            at <= last + 1,
            last == chars@.len() - wanted@.len(),
            chars@ == text@,
            wanted@ == needle@,
            forall|k: int| 0 <= k < at ==> !occurs_at(text@, needle@, k),
        decreases last + 1 - at,
    {
        if matches_at(&chars, &wanted, at) {
            return true;
        }
        if at == last {
            return false;
        }
        at += 1;
    }
    false
}

/// What occurs in the middle of a text occurs in the text.
pub proof fn lemma_occurs_within(
    before: Seq<char>,
    text: Seq<char>,
    after: Seq<char>,
    needle: Seq<char>,
)
    requires
        occurs(text, needle) || text == needle,
    ensures
        occurs(before + text + after, needle),
{
    let whole = before + text + after;
    if text == needle {
        assert(text.subrange(0, needle.len() as int) =~= needle);
        assert(occurs_at(text, needle, 0));
    }
    let at = choose|at: int| occurs_at(text, needle, at);
    let from = before.len() + at;
    assert(whole.subrange(from, from + needle.len()) =~= text.subrange(at, at + needle.len()));
    assert(occurs_at(whole, needle, from));
}

/// What occurs in a part occurs in the whole.
pub proof fn lemma_occurs_transitive(whole: Seq<char>, part: Seq<char>, needle: Seq<char>)
    requires
        occurs(whole, part),
        occurs(part, needle),
    ensures
        occurs(whole, needle),
{
    let at = choose|at: int| occurs_at(whole, part, at);
    let before = whole.take(at);
    let after = whole.skip(at + part.len());
    assert(whole =~= before + part + after);
    lemma_occurs_within(before, part, after, needle);
}

/// Each part occurs in what they are joined to.
pub proof fn lemma_joined_holds_part(parts: Seq<Seq<char>>, separator: Seq<char>, i: int)
    requires
        0 <= i < parts.len(),
    ensures
        occurs(joined(parts, separator), parts[i]),
    decreases parts.len(),
{
    let whole = joined(parts, separator);
    if parts.len() == 1 {
        assert(whole =~= Seq::<char>::empty() + parts[0] + Seq::<char>::empty());
        lemma_occurs_within(Seq::empty(), parts[0], Seq::empty(), parts[0]);
    } else if i == parts.len() - 1 {
        let before = joined(parts.drop_last(), separator) + separator;
        assert(whole =~= before + parts[i] + Seq::<char>::empty());
        lemma_occurs_within(before, parts[i], Seq::empty(), parts[i]);
    } else {
        lemma_joined_holds_part(parts.drop_last(), separator, i);
        let front = joined(parts.drop_last(), separator);
        assert(parts.drop_last()[i] == parts[i]);
        assert(whole =~= Seq::<char>::empty() + front + (separator + parts.last()));
        lemma_occurs_within(Seq::empty(), front, separator + parts.last(), parts[i]);
    }
}

/// A decimal numeral ends in the number's last digit, and what stands before
/// it is the numeral of the rest. It has no leading zero, and a minus sign
/// exactly if the number is negative.
pub proof fn decimal_is_positional(n: int)
    ensures
        0 <= n < 10 ==> decimal(n).len() == 1 && decimal(n)[0] as int == 48 + n,
        n >= 10 ==> decimal(n).len() > 1 && decimal(n).drop_last() == decimal(n / 10)
            && decimal(n).last() as int == 48 + n % 10,
        n > 0 ==> '1' <= decimal(n)[0] <= '9',
        n < 0 ==> decimal(n) == seq!['-'] + decimal(-n),
    decreases n,
{
    if n >= 10 {
        decimal_is_positional(n / 10);
        assert(decimal(n).drop_last() =~= decimal(n / 10));
        assert(decimal(n)[0] == decimal(n / 10)[0]);
    }
}

/// A hexadecimal numeral ends in the number's last digit, in lower case, and
/// what stands before it is the numeral of the rest. It has two digits at
/// least.
pub proof fn hex_pair_is_positional(n: nat)
    ensures
        n < 256 ==> hex_pair(n) == seq![
            "0123456789abcdef"@[(n / 16) as int],
            "0123456789abcdef"@[(n % 16) as int],
        ],
        n >= 256 ==> hex_pair(n).len() > 2 && hex_pair(n).drop_last() == hex_pair(n / 16)
            && hex_pair(n).last() == "0123456789abcdef"@[(n % 16) as int],
    decreases n,
{
    lemma_numeral(n % 16);
    if n < 256 {
        lemma_numeral(n / 16);
        reveal_with_fuel(in_base, 2);
        assert(hex_pair(n) =~= seq![numeral(n / 16), numeral(n % 16)]);
    } else {
        assert(in_base(n, 16).drop_last() =~= in_base(n / 16, 16));
        if n / 16 >= 256 {
            hex_pair_is_positional(n / 16);
        } else {
            reveal_with_fuel(in_base, 2);
        }
    }
}

proof fn lemma_numeral(d: nat)
    requires
        d < 16,
    ensures
        numeral(d) == "0123456789abcdef"@[d as int],
{
    reveal_strlit("0123456789abcdef");
}

/// Joining one more part puts the separator and the part behind what was
/// joined before. A first part stands alone.
pub proof fn joined_grows(parts: Seq<Seq<char>>, part: Seq<char>, separator: Seq<char>)
    ensures
        joined(Seq::empty(), separator).len() == 0,
        parts.len() == 0 ==> joined(parts.push(part), separator) == part,
        parts.len() > 0 ==> joined(parts.push(part), separator) == joined(parts, separator)
            + separator + part,
{
    assert(parts.push(part).drop_last() =~= parts);
}

/// One more part stands behind those before it.
pub proof fn concatenated_grows(parts: Seq<Seq<char>>, part: Seq<char>)
    ensures
        concatenated(Seq::empty()).len() == 0,
        concatenated(parts.push(part)) == concatenated(parts) + part,
{
    assert(parts.push(part).drop_last() =~= parts);
}

/// What is trimmed off is white space at the end, all of it and nothing else.
pub proof fn trimmed_end_cuts_white_space(text: Seq<char>)
    ensures
        trimmed_end(text).len() <= text.len(),
        trimmed_end(text) == text.take(trimmed_end(text).len() as int),
        forall|i: int|
            trimmed_end(text).len() <= i < text.len() ==> white_space(#[trigger] text[i]),
        trimmed_end(text).len() > 0 ==> !white_space(trimmed_end(text).last()),
    decreases text.len(),
{
    if text.len() > 0 && white_space(text.last()) {
        let shorter = text.drop_last();
        trimmed_end_cuts_white_space(shorter);
        let len = trimmed_end(text).len();
        assert(text.take(len as int) =~= shorter.take(len as int));
        assert forall|i: int| len <= i < text.len() implies white_space(#[trigger] text[i]) by {
            if i < shorter.len() {
                assert(text[i] == shorter[i]);
            }
        }
    } else {
        assert(text.take(text.len() as int) =~= text);
    }
}

/// What is cut off are slashes at the end, all of them and nothing else.
pub proof fn trailing_slashes_are_cut(text: Seq<char>)
    ensures
        without_trailing_slashes(text).len() <= text.len(),
        without_trailing_slashes(text) == text.take(without_trailing_slashes(text).len() as int),
        forall|i: int|
            without_trailing_slashes(text).len() <= i < text.len() ==> #[trigger] text[i] == '/',
        without_trailing_slashes(text).len() > 0 ==> without_trailing_slashes(text).last() != '/',
    decreases text.len(),
{
    if text.len() > 0 && text.last() == '/' {
        let shorter = text.drop_last();
        trailing_slashes_are_cut(shorter);
        let len = without_trailing_slashes(text).len();
        assert(text.take(len as int) =~= shorter.take(len as int));
        assert forall|i: int| len <= i < text.len() implies #[trigger] text[i] == '/' by {
            if i < shorter.len() {
                assert(text[i] == shorter[i]);
            }
        }
    } else {
        assert(text.take(text.len() as int) =~= text);
    }
}

/// A text ends in a semicolon exactly if its last character is one.
pub proof fn semicolon_is_last(text: Seq<char>, c: char)
    ensures
        !ends_in_semicolon(Seq::empty()),
        ends_in_semicolon(text.push(c)) <==> c == ';',
{
}

/// What occurs in a text stands in it in one piece, and whatever stands in it
/// in one piece occurs.
pub proof fn occurrence_is_a_piece(text: Seq<char>, needle: Seq<char>)
    ensures
        occurs(text, needle) <==> exists|before: Seq<char>, after: Seq<char>|
            text == #[trigger] (before + needle + after),
{
    if occurs(text, needle) {
        let at = choose|at: int| occurs_at(text, needle, at);
        assert(text =~= text.take(at) + needle + text.skip(at + needle.len()));
    }
    if exists|before: Seq<char>, after: Seq<char>| text == #[trigger] (before + needle + after) {
        let (before, after) = choose|before: Seq<char>, after: Seq<char>|
            text == #[trigger] (before + needle + after);
        lemma_occurs_within(before, needle, after, needle);
    }
}

} // verus!
