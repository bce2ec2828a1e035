//! Pieces of text as sequences of characters: joining, indentation, decimal
//! numbers and quoted strings.

use vstd::prelude::*;
use vstd::string::*;

verus! {

/// The first `n` parts, with `sep` between each two neighbours.
pub open spec fn joined_first(parts: Seq<Seq<char>>, sep: Seq<char>, n: nat) -> Seq<char>
    decreases n,
{
    if n == 0 {
        Seq::empty()
    } else if n == 1 {
        parts[0]
    } else {
        joined_first(parts, sep, (n - 1) as nat) + sep + parts[n - 1]
    }
}

/// All the parts, with `sep` between each two neighbours: nothing before the
/// first part and nothing after the last.
pub open spec fn joined(parts: Seq<Seq<char>>, sep: Seq<char>) -> Seq<char> {
    joined_first(parts, sep, parts.len())
}

/// The first `n` parts, one after the other.
pub open spec fn concat_first(parts: Seq<Seq<char>>, n: nat) -> Seq<char>
    decreases n,
{
    if n == 0 {
        Seq::empty()
    } else {
        concat_first(parts, (n - 1) as nat) + parts[n - 1]
    }
}

/// All the parts, one after the other.
pub open spec fn concat(parts: Seq<Seq<char>>) -> Seq<char> {
    concat_first(parts, parts.len())
}

/// The characters of each string.
pub open spec fn texts(parts: Seq<String>) -> Seq<Seq<char>> {
    Seq::new(parts.len(), |i: int| parts[i]@)
}

/// `n` space characters.
pub open spec fn spaces(n: nat) -> Seq<char> {
    Seq::new(n, |i: int| ' ')
}

/// `n` full stops.
pub open spec fn dots(n: nat) -> Seq<char> {
    Seq::new(n, |i: int| '.')
}

/// The character for a decimal digit.
pub open spec fn digit(d: nat) -> char
    recommends
        d < 10,
{
    if d == 0 {
        '0'
    } else if d == 1 {
        '1'
    } else if d == 2 {
        '2'
    } else if d == 3 {
        '3'
    } else if d == 4 {
        '4'
    } else if d == 5 {
        '5'
    } else if d == 6 {
        '6'
    } else if d == 7 {
        '7'
    } else if d == 8 {
        '8'
    } else {
        '9'
    }
}

/// A natural number in decimal, without leading zeros.
pub open spec fn nat_text(n: nat) -> Seq<char>
    decreases n,
{
    if n < 10 {
        seq![digit(n)]
    } else {
        nat_text(n / 10).push(digit(n % 10))
    }
}

/// An integer in decimal, with a minus sign in front if it is negative.
pub open spec fn int_text(i: int) -> Seq<char> {
    if i < 0 {
        seq!['-'] + nat_text((-i) as nat)
    } else {
        nat_text(i as nat)
    }
}

/// A character that stands for itself between double quotes, unless it is the
/// quote or the backslash: the printable characters of ASCII.
pub open spec fn is_printable(c: char) -> bool {
    ' ' <= c <= '~'
}

/// A character that a quoted string can hold: a printable one, a line feed,
/// a carriage return or a tab.
pub open spec fn is_quotable(c: char) -> bool {
    is_printable(c) || c == '\n' || c == '\r' || c == '\t'
}

/// What stands for a character between double quotes.
pub open spec fn escaped_char(c: char) -> Seq<char> {
    if c == '"' {
        seq!['\\', '"']
    } else if c == '\\' {
        seq!['\\', '\\']
    } else if c == '\n' {
        seq!['\\', 'n']
    } else if c == '\r' {
        seq!['\\', 'r']
    } else if c == '\t' {
        seq!['\\', 't']
    } else {
        seq![c]
    }
}

/// What stands for the first `n` characters of `s` between double quotes.
pub open spec fn escaped_first(s: Seq<char>, n: nat) -> Seq<char>
    decreases n,
{
    if n == 0 {
        Seq::empty()
    } else {
        escaped_first(s, (n - 1) as nat) + escaped_char(s[n - 1])
    }
}

/// Whether every character of `s` can stand in a quoted string.
pub open spec fn quotable(s: Seq<char>) -> bool {
    forall|i: int| 0 <= i < s.len() ==> is_quotable(#[trigger] s[i])
}

/// `s` as a string literal: between double quotes, each character escaped.
pub open spec fn quoted(s: Seq<char>) -> Seq<char> {
    seq!['"'] + escaped_first(s, s.len()) + seq!['"']
}

/// Adding a part at the end leaves the text of the parts before it as it was.
pub proof fn lemma_joined_first_push(
    parts: Seq<Seq<char>>,
    sep: Seq<char>,
    part: Seq<char>,
    n: nat,
)
    requires
        n <= parts.len(),
    ensures
        joined_first(parts.push(part), sep, n) == joined_first(parts, sep, n),
    decreases n,
{
    if n > 1 {
        lemma_joined_first_push(parts, sep, part, (n - 1) as nat);
    }
}

/// Joining no parts gives the empty text. Joining one part gives that part.
/// Joining two or more gives what joining all but the last gives, then the
/// separator once, then the last part.
pub proof fn lemma_joined_cases(parts: Seq<Seq<char>>, sep: Seq<char>)
    ensures
        parts.len() == 0 ==> joined(parts, sep) == Seq::<char>::empty(),
        parts.len() == 1 ==> joined(parts, sep) == parts[0],
        parts.len() >= 2 ==> joined(parts, sep) == joined(parts.drop_last(), sep) + sep
            + parts.last(),
{
    if parts.len() >= 2 {
        assert(parts.drop_last().push(parts.last()) =~= parts);
        lemma_joined_first_push(
            parts.drop_last(),
            sep,
            parts.last(),
            (parts.len() - 1) as nat,
        );
    }
}

/// Each part after the first, with the separator in front of it.
pub open spec fn separated_rest(parts: Seq<Seq<char>>, sep: Seq<char>) -> Seq<Seq<char>> {
    Seq::new((parts.len() - 1) as nat, |i: int| sep + parts[i + 1])
}

/// The joined text of one or more parts is the first part, then each
/// further part with exactly one separator in front of it: no separator
/// stands before the first part or after the last.
pub proof fn lemma_joined_layout(parts: Seq<Seq<char>>, sep: Seq<char>)
    requires
        parts.len() >= 1,
    ensures
        joined(parts, sep) == parts[0] + concat(separated_rest(parts, sep)),
{
    lemma_joined_first_layout(parts, sep, parts.len());
}

/// The joined text of the first `n` parts is the first part, then each of
/// the further ones with the separator in front of it.
proof fn lemma_joined_first_layout(parts: Seq<Seq<char>>, sep: Seq<char>, n: nat)
    requires
        1 <= n <= parts.len(),
    ensures
        joined_first(parts, sep, n) == parts[0] + concat_first(
            separated_rest(parts, sep),
            (n - 1) as nat,
        ),
    decreases n,
{
    let rest = separated_rest(parts, sep);
    if n == 1 {
        assert(joined_first(parts, sep, n) =~= parts[0] + concat_first(rest, 0));
    } else {
        lemma_joined_first_layout(parts, sep, (n - 1) as nat);
        assert(rest[n - 2] == sep + parts[n - 1]);
        assert(joined_first(parts, sep, n) =~= parts[0] + concat_first(rest, (n - 1) as nat));
    }
}

/// Adding a part at the end leaves the text of the parts before it as it was.
pub proof fn lemma_concat_first_push(parts: Seq<Seq<char>>, part: Seq<char>, n: nat)
    requires
        n <= parts.len(),
    ensures
        concat_first(parts.push(part), n) == concat_first(parts, n),
    decreases n,
{
    if n > 0 {
        lemma_concat_first_push(parts, part, (n - 1) as nat);
    }
}

/// The parts of two lists one after the other are the parts of the first
/// list, then those of the second.
pub proof fn lemma_concat_add(a: Seq<Seq<char>>, b: Seq<Seq<char>>)
    ensures
        concat(a + b) == concat(a) + concat(b),
    decreases b.len(),
{
    if b.len() == 0 {
        assert(a + b =~= a);
        assert(concat(a) + concat(b) =~= concat(a));
    } else {
        lemma_concat_add(a, b.drop_last());
        assert((a + b.drop_last()).push(b.last()) =~= a + b);
        lemma_concat_first_push(a + b.drop_last(), b.last(), (a + b.drop_last()).len());
        assert(b.drop_last().push(b.last()) =~= b);
        lemma_concat_first_push(b.drop_last(), b.last(), b.drop_last().len());
        assert(concat(a + b) =~= concat(a) + concat(b));
    }
}

/// Whether a character is a decimal digit.
pub open spec fn is_digit(c: char) -> bool {
    '0' <= c <= '9'
}

/// The number that a decimal digit stands for.
pub open spec fn digit_value(c: char) -> nat
    recommends
        is_digit(c),
{
    if c == '0' {
        0
    } else if c == '1' {
        1
    } else if c == '2' {
        2
    } else if c == '3' {
        3
    } else if c == '4' {
        4
    } else if c == '5' {
        5
    } else if c == '6' {
        6
    } else if c == '7' {
        7
    } else if c == '8' {
        8
    } else {
        9
    }
}

/// The number that a row of decimal digits stands for.
pub open spec fn nat_value(t: Seq<char>) -> nat
    decreases t.len(),
{
    if t.len() == 0 {
        0
    } else {
        nat_value(t.drop_last()) * 10 + digit_value(t.last())
    }
}

/// The integer that a row of decimal digits stands for, with or without a
/// minus sign in front.
pub open spec fn int_value(t: Seq<char>) -> int {
    if t.len() > 0 && t[0] == '-' {
        -(nat_value(t.drop_first()) as int)
    } else {
        nat_value(t) as int
    }
}

/// The decimal text of a natural number is made of digits, at least one,
/// and begins with a zero only where the number is zero; read as a number
/// it gives the number back.
pub proof fn lemma_nat_text_reads_back(n: nat)
    ensures
        nat_text(n).len() >= 1,
        forall|i: int| 0 <= i < nat_text(n).len() ==> is_digit(#[trigger] nat_text(n)[i]),
        nat_text(n)[0] == '0' <==> n == 0,
        n == 0 ==> nat_text(n) == seq!['0'],
        nat_value(nat_text(n)) == n,
    decreases n,
{
    if n < 10 {
        let t = nat_text(n);
        assert(t.drop_last() =~= Seq::<char>::empty());
        assert(nat_value(t.drop_last()) == 0);
    } else {
        lemma_nat_text_reads_back(n / 10);
        let t = nat_text(n);
        assert(t.drop_last() =~= nat_text(n / 10));
        assert(t.last() == digit(n % 10));
        assert(t[0] == nat_text(n / 10)[0]);
    }
}

/// The decimal text of an integer, read as a number, gives the integer
/// back.
pub proof fn lemma_int_text_reads_back(i: int)
    ensures
        int_value(int_text(i)) == i,
{
    if i < 0 {
        let t = int_text(i);
        assert(t.drop_first() =~= nat_text((-i) as nat));
        lemma_nat_text_reads_back((-i) as nat);
    } else {
        lemma_nat_text_reads_back(i as nat);
    }
}

/// The character that stands after a backslash between double quotes.
pub open spec fn unescaped_char(c: char) -> char {
    if c == 'n' {
        '\n'
    } else if c == 'r' {
        '\r'
    } else if c == 't' {
        '\t'
    } else {
        c
    }
}

/// The characters that the text between two double quotes stands for: a
/// backslash and the character after it stand for one character, every
/// other character for itself.
pub open spec fn unescaped(t: Seq<char>) -> Seq<char>
    decreases t.len(),
{
    if t.len() == 0 {
        Seq::empty()
    } else if t[0] == '\\' && t.len() >= 2 {
        seq![unescaped_char(t[1])] + unescaped(t.skip(2))
    } else {
        seq![t[0]] + unescaped(t.skip(1))
    }
}

/// The characters that a string literal between double quotes stands for.
pub open spec fn unquoted(t: Seq<char>) -> Seq<char> {
    unescaped(t.subrange(1, t.len() - 1))
}

/// What stands for the first `n` characters begins with what stands for the
/// first of them.
proof fn lemma_escaped_first_front(s: Seq<char>, n: nat)
    requires
        1 <= n <= s.len(),
    ensures
        escaped_first(s, n) == escaped_char(s[0]) + escaped_first(s.skip(1), (n - 1) as nat),
    decreases n,
{
    if n == 1 {
        assert(escaped_first(s, 0) =~= Seq::<char>::empty());
        assert(escaped_first(s.skip(1), 0) =~= Seq::<char>::empty());
        assert(escaped_first(s, 1) =~= escaped_char(s[0]) + escaped_first(s.skip(1), 0));
    } else {
        lemma_escaped_first_front(s, (n - 1) as nat);
        assert(s.skip(1)[n - 2] == s[n - 1]);
        assert(escaped_first(s, n) =~= escaped_char(s[0]) + escaped_first(
            s.skip(1),
            (n - 1) as nat,
        ));
    }
}

/// What stands for the first `n` characters of a string between double
/// quotes is made of printable characters and stands for those characters.
proof fn lemma_escaped_reads_back(s: Seq<char>, n: nat)
    requires
        n <= s.len(),
        quotable(s),
    ensures
        unescaped(escaped_first(s, n)) == s.take(n as int),
        forall|i: int|
            0 <= i < escaped_first(s, n).len() ==> is_printable(#[trigger] escaped_first(s, n)[i]),
    decreases n,
{
    if n == 0 {
        assert(s.take(0) =~= Seq::<char>::empty());
    } else {
        let rest = s.skip(1);
        let tail = escaped_first(rest, (n - 1) as nat);
        let head = escaped_char(s[0]);
        assert(quotable(rest)) by {
            assert forall|i: int| 0 <= i < rest.len() implies is_quotable(#[trigger] rest[i]) by {
                assert(rest[i] == s[i + 1]);
            }
        }
        lemma_escaped_first_front(s, n);
        lemma_escaped_reads_back(rest, (n - 1) as nat);
        assert(is_quotable(s[0]));
        let whole = head + tail;
        if head.len() == 2 {
            assert(whole[0] == '\\');
            assert(whole.skip(2) =~= tail);
            assert(unescaped_char(whole[1]) == s[0]);
        } else {
            assert(whole[0] == s[0]);
            assert(whole.skip(1) =~= tail);
        }
        assert(seq![s[0]] + rest.take(n - 1) =~= s.take(n as int));
        assert forall|i: int| 0 <= i < whole.len() implies is_printable(#[trigger] whole[i]) by {
            if i >= head.len() {
                assert(whole[i] == tail[i - head.len()]);
            }
        }
    }
}

/// A string that a quoted string can hold is written between two double
/// quotes, in printable characters alone, and what is written stands for the
/// string: read back, it gives every character of it.
pub proof fn lemma_quoted_reads_back(s: Seq<char>)
    requires
        quotable(s),
    ensures
        quoted(s).len() >= 2,
        quoted(s).first() == '"',
        quoted(s).last() == '"',
        forall|i: int| 0 <= i < quoted(s).len() ==> is_printable(#[trigger] quoted(s)[i]),
        unquoted(quoted(s)) == s,
{
    let body = escaped_first(s, s.len());
    let q = quoted(s);
    lemma_escaped_reads_back(s, s.len());
    assert(q.subrange(1, q.len() - 1) =~= body);
    assert(s.take(s.len() as int) =~= s);
    assert forall|i: int| 0 <= i < q.len() implies is_printable(#[trigger] q[i]) by {
        if 1 <= i < q.len() - 1 {
            assert(q[i] == body[i - 1]);
        }
    }
}

/// Whether a text holds no line break.
pub open spec fn unbroken(t: Seq<char>) -> bool {
    forall|i: int| 0 <= i < t.len() ==> #[trigger] t[i] != '\n'
}

/// Whether none of the texts holds a line break.
pub open spec fn all_unbroken(parts: Seq<Seq<char>>) -> bool {
    forall|i: int| 0 <= i < parts.len() ==> unbroken(#[trigger] parts[i])
}

/// Parts that hold no line break, joined with a separator that holds none,
/// hold none.
pub proof fn lemma_joined_unbroken(parts: Seq<Seq<char>>, sep: Seq<char>)
    requires
        all_unbroken(parts),
        unbroken(sep),
    ensures
        unbroken(joined(parts, sep)),
{
    lemma_joined_first_unbroken(parts, sep, parts.len());
}

/// The first `n` parts, joined, hold no line break where neither they nor
/// the separator hold one.
proof fn lemma_joined_first_unbroken(parts: Seq<Seq<char>>, sep: Seq<char>, n: nat)
    requires
        n <= parts.len(),
        all_unbroken(parts),
        unbroken(sep),
    ensures
        unbroken(joined_first(parts, sep, n)),
    decreases n,
{
    if n == 1 {
        assert(unbroken(parts[0]));
    } else if n > 1 {
        lemma_joined_first_unbroken(parts, sep, (n - 1) as nat);
        assert(unbroken(parts[n - 1]));
    }
}

/// Parts that hold no line break, one after the other, hold none.
pub proof fn lemma_concat_unbroken(parts: Seq<Seq<char>>)
    requires
        all_unbroken(parts),
    ensures
        unbroken(concat(parts)),
{
    lemma_concat_first_unbroken(parts, parts.len());
}

/// The first `n` parts, one after the other, hold no line break where
/// they hold none.
proof fn lemma_concat_first_unbroken(parts: Seq<Seq<char>>, n: nat)
    requires
        n <= parts.len(),
        all_unbroken(parts),
    ensures
        unbroken(concat_first(parts, n)),
    decreases n,
{
    if n > 0 {
        lemma_concat_first_unbroken(parts, (n - 1) as nat);
        assert(unbroken(parts[n - 1]));
    }
}

/// The decimal text of an integer holds no line break.
pub proof fn lemma_int_text_unbroken(i: int)
    ensures
        unbroken(int_text(i)),
{
    if i < 0 {
        lemma_nat_text_reads_back((-i) as nat);
    } else {
        lemma_nat_text_reads_back(i as nat);
    }
}

/// What stands for the first `n` characters of a string between double
/// quotes holds no line break, whatever the string holds.
proof fn lemma_escaped_unbroken(s: Seq<char>, n: nat)
    requires
        n <= s.len(),
    ensures
        unbroken(escaped_first(s, n)),
    decreases n,
{
    if n > 0 {
        lemma_escaped_unbroken(s, (n - 1) as nat);
    }
}

/// A string literal holds no line break, whatever the string holds.
pub proof fn lemma_quoted_unbroken(s: Seq<char>)
    ensures
        unbroken(quoted(s)),
{
    lemma_escaped_unbroken(s, s.len());
}

/// The text of a digit, as a string of one character.
fn digit_str(d: u64) -> (s: &'static str)
    requires
        d < 10,
    ensures
        s@ == seq![digit(d as nat)],
{
    proof {
        reveal_strlit("0");
        reveal_strlit("1");
        reveal_strlit("2");
        reveal_strlit("3");
        reveal_strlit("4");
        reveal_strlit("5");
        reveal_strlit("6");
        reveal_strlit("7");
        reveal_strlit("8");
        reveal_strlit("9");
    }
    let s = if d == 0 {
        "0"
    } else if d == 1 {
        "1"
    } else if d == 2 {
        "2"
    } else if d == 3 {
        "3"
    } else if d == 4 {
        "4"
    } else if d == 5 {
        "5"
    } else if d == 6 {
        "6"
    } else if d == 7 {
        "7"
    } else if d == 8 {
        "8"
    } else {
        "9"
    };
    assert(s@ =~= seq![digit(d as nat)]);
    s
}

/// Appends a natural number in decimal.
fn push_nat(s: &mut String, n: u64)
    ensures
        final(s)@ == old(s)@ + nat_text(n as nat),
    decreases n,
{
    if n >= 10 {
        push_nat(s, n / 10);
    }
    s.append(digit_str(n % 10));
    assert(s@ =~= old(s)@ + nat_text(n as nat));
}

/// An integer in decimal.
pub fn format_int(i: i64) -> (s: String)
    ensures
        s@ == int_text(i as int),
{
    let mut s = String::new();
    if i < 0 {
        proof {
            reveal_strlit("-");
        }
        s.append("-");
        let magnitude: u64 = if i == i64::MIN {
            9223372036854775808u64
        } else {
            (-i) as u64
        };
        push_nat(&mut s, magnitude);
        assert(s@ =~= int_text(i as int));
    } else {
        push_nat(&mut s, i as u64);
        assert(s@ =~= int_text(i as int));
    }
    s
}

/// What stands for one character of ASCII between double quotes.
fn escaped_str(text: &str, i: usize) -> (s: &str)
    requires
        text.is_ascii(),
        i < text@.len(),
        i < usize::MAX,
    ensures
        s@ == escaped_char(text@[i as int]),
{
    proof {
        reveal_strlit("\\\"");
        reveal_strlit("\\\\");
        reveal_strlit("\\n");
        reveal_strlit("\\r");
        reveal_strlit("\\t");
    }
    let b = text.get_ascii(i);
    let s = if b == 0x22 {
        "\\\""
    } else if b == 0x5c {
        "\\\\"
    } else if b == 0x0a {
        "\\n"
    } else if b == 0x0d {
        "\\r"
    } else if b == 0x09 {
        "\\t"
    } else {
        text.substring_ascii(i, i + 1)
    };
    assert(s@ =~= escaped_char(text@[i as int]));
    s
}

/// A string as a string literal between double quotes, or `None` where it
/// holds a character that no quoted string can hold.
pub fn quote(text: &str) -> (r: Option<String>)
    ensures
        r is Some <==> quotable(text@),
        r is Some ==> r->Some_0@ == quoted(text@),
{
    if !text.is_ascii() {
        assert(!quotable(text@)) by {
            if quotable(text@) {
                assert forall|i: int| 0 <= i < text@.len() implies '\0' <= #[trigger] text@[i]
                    <= '\u{7f}' by {
                    assert(is_quotable(text@[i]));
                }
            }
        }
        return None;
    }
    let n = text.unicode_len();
    let mut s = String::new();
    proof {
        reveal_strlit("\"");
    }
    s.append("\"");
    let mut i: usize = 0;
    while i < n
        invariant
            i <= n,
            n == text@.len(),
            text.is_ascii(),
            forall|j: int| 0 <= j < i ==> is_quotable(#[trigger] text@[j]),
            s@ == seq!['"'] + escaped_first(text@, i as nat),
        decreases n - i,
    {
        let b = text.get_ascii(i);
        if !(0x20 <= b && b <= 0x7e || b == 0x0a || b == 0x0d || b == 0x09) {
            assert(!is_quotable(text@[i as int]));
            return None;
        }
        assert(is_quotable(text@[i as int]));
        s.append(escaped_str(text, i));
        i += 1;
        assert(s@ =~= seq!['"'] + escaped_first(text@, i as nat));
    }
    s.append("\"");
    assert(s@ =~= quoted(text@));
    Some(s)
}

} // verus!
