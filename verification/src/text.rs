//! Text helpers: trimming, splitting, searching, numbers and plugin strings.

use vstd::prelude::*;

verus! {

/// White space: the characters that have Unicode's `White_Space` property.
pub open spec fn white_space(c: char) -> bool {
    let n = c as u32;
    ||| 0x9 <= n <= 0xd
    ||| n == 0x20
    ||| n == 0x85
    ||| n == 0xa0
    ||| n == 0x1680
    ||| 0x2000 <= n <= 0x200a
    ||| n == 0x2028
    ||| n == 0x2029
    ||| n == 0x202f
    ||| n == 0x205f
    ||| n == 0x3000
}

/// A text in lower case, as `str::to_lowercase` gives it.
pub uninterp spec fn lowercased(s: Seq<char>) -> Seq<char>;

/// Bytes read as UTF-8 with every invalid stretch replaced, as
/// `String::from_utf8_lossy` gives it.
pub uninterp spec fn lossy_text(bytes: Seq<u8>) -> Seq<char>;

/// A text in quotes with escapes, as its `Debug` formatting gives it.
pub uninterp spec fn quoted_text(s: Seq<char>) -> Seq<char>;

/// `char::is_whitespace`: true of exactly the characters that have Unicode's
/// `White_Space` property.
#[verifier::external_body]
fn is_white_space(c: char) -> (r: bool)
    ensures
        r == white_space(c),
{
    c.is_whitespace()
}

/// `str::to_lowercase`: the result depends on the text alone.
#[verifier::external_body]
pub(crate) fn lowercase(s: &str) -> (r: String)
    ensures
        r@ == lowercased(s@),
{
    s.to_lowercase()
}

/// `String::from_utf8_lossy`: the result depends on the bytes alone, and valid
/// UTF-8 comes through as the text that it encodes.
#[verifier::external_body]
fn lossy(bytes: &[u8]) -> (r: String)
    ensures
        r@ == lossy_text(bytes@),
        vstd::utf8::valid_utf8(bytes@) ==> vstd::utf8::encode_utf8(r@) == bytes@,
{
    String::from_utf8_lossy(bytes).into_owned()
}

/// The `Debug` formatting of `str`: the result depends on the text alone.
#[verifier::external_body]
pub(crate) fn quoted(s: &str) -> (r: String)
    ensures
        r@ == quoted_text(s@),
{
    format!("{:?}", s)
}

/// The characters of a text.
pub(crate) fn chars_of(s: &str) -> (chars: Vec<char>)
    ensures
        chars@ == s@,
{
    let mut chars: Vec<char> = Vec::new();
    for c in it: s.chars()
        invariant
            chars@ == it.seq().take(it.index()),
            it.seq() == s@,
    {
        chars.push(c);
        assert(it.seq().take(it.index() + 1) =~= it.seq().take(it.index()).push(c));
    }
    assert(chars@ =~= s@);
    chars
}

/// Whether two texts are the same.
pub(crate) fn same_text(a: &str, b: &str) -> (r: bool)
    ensures
        r == (a@ == b@),
{
    a.to_owned() == b.to_owned()
}

/// What is left of a text once leading white space is gone.
pub open spec fn trimmed_start(s: Seq<char>) -> Seq<char>
    decreases s.len(),
{
    if s.len() > 0 && white_space(s[0]) {
        trimmed_start(s.skip(1))
    } else {
        s
    }
}

/// What is left of a text once trailing white space is gone.
pub open spec fn trimmed_end(s: Seq<char>) -> Seq<char>
    decreases s.len(),
{
    if s.len() > 0 && white_space(s.last()) {
        trimmed_end(s.drop_last())
    } else {
        s
    }
}

/// A text without leading and trailing white space.
pub open spec fn trimmed(s: Seq<char>) -> Seq<char> {
    trimmed_end(trimmed_start(s))
}

proof fn trimmed_start_of_blank_front(s: Seq<char>, i: int)
    requires
        0 <= i <= s.len(),
        forall|k: int| 0 <= k < i ==> white_space(#[trigger] s[k]),
        i < s.len() ==> !white_space(s[i]),
    ensures
        trimmed_start(s) == s.skip(i),
    decreases i,
{
    if i > 0 {
        let rest = s.skip(1);
        assert forall|k: int| 0 <= k < i - 1 implies white_space(#[trigger] rest[k]) by {
            assert(rest[k] == s[k + 1]);
        }
        trimmed_start_of_blank_front(rest, i - 1);
        assert(rest.skip(i - 1) =~= s.skip(i));
    } else {
        assert(s.skip(0) =~= s);
    }
}

proof fn trimmed_end_of_blank_back(s: Seq<char>, j: int)
    requires
        0 <= j <= s.len(),
        forall|k: int| j <= k < s.len() ==> white_space(#[trigger] s[k]),
        j > 0 ==> !white_space(s[j - 1]),
    ensures
        trimmed_end(s) == s.take(j),
    decreases s.len(),
{
    if j < s.len() {
        trimmed_end_of_blank_back(s.drop_last(), j);
        assert(s.drop_last().take(j) =~= s.take(j));
    } else {
        assert(s.take(j) =~= s);
    }
}

/// Cut leading and trailing white space off.
pub fn trim(s: &str) -> (r: &str)
    ensures
        r@ == trimmed(s@),
{
    let chars = chars_of(s);
    let mut i: usize = 0;
    while i < chars.len() && is_white_space(chars[i])
        invariant
            chars@ == s@,
            i <= chars.len(),
            forall|k: int| 0 <= k < i ==> white_space(#[trigger] chars@[k]),
        ensures
            chars@ == s@,
            i <= chars.len(),
            forall|k: int| 0 <= k < i ==> white_space(#[trigger] chars@[k]),
            i < chars.len() ==> !white_space(chars@[i as int]),
        decreases chars.len() - i,
    {
        i = i + 1;
    }
    let mut j: usize = chars.len();
    while j > i && is_white_space(chars[j - 1])
        invariant
            chars@ == s@,
            i <= j <= chars.len(),
            forall|k: int| j <= k < chars.len() ==> white_space(#[trigger] chars@[k]),
        ensures
            chars@ == s@,
            i <= j <= chars.len(),
            forall|k: int| j <= k < chars.len() ==> white_space(#[trigger] chars@[k]),
            j > i ==> !white_space(chars@[j - 1]),
        decreases j,
    {
        j = j - 1;
    }
    proof {
        trimmed_start_of_blank_front(s@, i as int);
        let rest = s@.skip(i as int);
        assert forall|k: int| j - i <= k < rest.len() implies white_space(#[trigger] rest[k]) by {
            assert(rest[k] == chars@[k + i]);
        }
        if j > i {
            assert(rest[j - i - 1] == chars@[j - 1]);
        }
        trimmed_end_of_blank_back(rest, j - i);
        assert(rest.take(j - i) =~= s@.subrange(i as int, j as int));
    }
    s.substring_char(i, j)
}

/// A text occurs in another, somewhere.
pub open spec fn occurs_at(needle: Seq<char>, hay: Seq<char>, at: int) -> bool {
    0 <= at && at + needle.len() <= hay.len() && hay.subrange(at, at + needle.len()) == needle
}

pub open spec fn occurs(needle: Seq<char>, hay: Seq<char>) -> bool {
    exists|at: int| occurs_at(needle, hay, at)
}

/// Whether a text occurs in another.
pub fn contains(hay: &str, needle: &str) -> (r: bool)
    ensures
        r == occurs(needle@, hay@),
{
    let h = chars_of(hay);
    let n = chars_of(needle);
    if n.len() > h.len() {
        return false;
    }
    let mut at: usize = 0;
    while at <= h.len() - n.len()
        invariant
            h@ == hay@,
            n@ == needle@,
            n.len() <= h.len(),
            at <= h.len() - n.len() + 1,
            forall|k: int| 0 <= k < at ==> !occurs_at(needle@, hay@, k),
        decreases h.len() - at,
    {
        let mut k: usize = 0;
        while k < n.len() && h[at + k] == n[k]
            invariant
                h@ == hay@,
                n@ == needle@,
                k <= n.len(),
                at + n.len() <= h.len(),
                forall|m: int| 0 <= m < k ==> h@[at + m] == #[trigger] n@[m],
            ensures
                h@ == hay@,
                n@ == needle@,
                k <= n.len(),
                forall|m: int| 0 <= m < k ==> h@[at + m] == #[trigger] n@[m],
                k < n.len() ==> h@[at + k] != n@[k as int],
            decreases n.len() - k,
        {
            k = k + 1;
        }
        if k == n.len() {
            assert(hay@.subrange(at as int, at + n.len()) =~= needle@);
            assert(occurs_at(needle@, hay@, at as int));
            return true;
        }
        assert(!occurs_at(needle@, hay@, at as int)) by {
            assert(hay@.subrange(at as int, at + n.len())[k as int] != needle@[k as int]);
        }
        at = at + 1;
    }
    false
}

/// `s[i..j]` is one of the words of `s`: a stretch without white space that
/// cannot be made longer.
pub open spec fn is_word(s: Seq<char>, i: int, j: int) -> bool {
    &&& 0 <= i < j <= s.len()
    &&& forall|k: int| i <= k < j ==> !white_space(#[trigger] s[k])
    &&& i > 0 ==> white_space(s[i - 1])
    &&& j < s.len() ==> white_space(s[j])
}

/// The next word at or after `from`, as the indices around it.
pub(crate) fn next_word(chars: &Vec<char>, from: usize) -> (r: Option<(usize, usize)>)
    requires
        from <= chars.len(),
        0 < from < chars.len() ==> white_space(chars@[from as int]) || white_space(
            chars@[from - 1],
        ),
    ensures
        r is None ==> forall|i: int, j: int| from <= i ==> !is_word(chars@, i, j),
        r matches Some((i, j)) ==> from <= i && is_word(chars@, i as int, j as int) && forall|
            a: int,
            b: int,
        | from <= a < j && is_word(chars@, a, b) ==> a == i && b == j,
{
    let mut i: usize = from;
    while i < chars.len() && is_white_space(chars[i])
        invariant
            from <= i <= chars.len(),
            forall|k: int| from <= k < i ==> white_space(#[trigger] chars@[k]),
        ensures
            from <= i <= chars.len(),
            forall|k: int| from <= k < i ==> white_space(#[trigger] chars@[k]),
            i < chars.len() ==> !white_space(chars@[i as int]),
        decreases chars.len() - i,
    {
        i = i + 1;
    }
    if i == chars.len() {
        assert forall|a: int, b: int| from <= a implies !is_word(chars@, a, b) by {
            if is_word(chars@, a, b) {
                assert(!white_space(chars@[a]));
            }
        }
        return None;
    }
    let mut j: usize = i + 1;
    while j < chars.len() && !is_white_space(chars[j])
        invariant
            i < j <= chars.len(),
            forall|k: int| i <= k < j ==> !white_space(#[trigger] chars@[k]),
        ensures
            i < j <= chars.len(),
            forall|k: int| i <= k < j ==> !white_space(#[trigger] chars@[k]),
            j < chars.len() ==> white_space(chars@[j as int]),
        decreases chars.len() - j,
    {
        j = j + 1;
    }
    assert forall|a: int, b: int| from <= a < j && is_word(chars@, a, b) implies a == i && b
        == j by {
        assert(!white_space(chars@[a]));
        if a > i {
            assert(!white_space(chars@[a - 1]));
        }
        if b < j {
            assert(!white_space(chars@[b]));
        }
        if b > j {
            assert(!white_space(chars@[j as int]));
        }
    }
    Some((i, j))
}

/// How many characters stand before the first `c`: all of them, where there
/// is none.
pub open spec fn first_at(s: Seq<char>, c: char) -> nat
    decreases s.len(),
{
    if s.len() == 0 || s[0] == c {
        0
    } else {
        1 + first_at(s.skip(1), c)
    }
}

proof fn first_at_is(s: Seq<char>, c: char, at: int)
    requires
        0 <= at <= s.len(),
        forall|k: int| 0 <= k < at ==> #[trigger] s[k] != c,
        at < s.len() ==> s[at] == c,
    ensures
        first_at(s, c) == at,
    decreases at,
{
    if at > 0 {
        let rest = s.skip(1);
        assert forall|k: int| 0 <= k < at - 1 implies #[trigger] rest[k] != c by {
            assert(rest[k] == s[k + 1]);
        }
        first_at_is(rest, c, at - 1);
    }
}

/// The pieces of a text between the separators.
pub open spec fn split(s: Seq<char>, sep: char) -> Seq<Seq<char>>
    decreases s.len(),
{
    let at = first_at(s, sep) as int;
    if at < s.len() {
        seq![s.take(at)] + split(s.skip(at + 1), sep)
    } else {
        seq![s]
    }
}

/// Where a character first stands at or after `from`; the end, where it does
/// not.
pub(crate) fn find_char(chars: &Vec<char>, from: usize, c: char) -> (at: usize)
    requires
        from <= chars.len(),
    ensures
        from <= at <= chars.len(),
        at == from + first_at(chars@.skip(from as int), c),
{
    let mut at: usize = from;
    while at < chars.len() && chars[at] != c
        invariant
            from <= at <= chars.len(),
            forall|k: int| from <= k < at ==> #[trigger] chars@[k] != c,
        ensures
            from <= at <= chars.len(),
            forall|k: int| from <= k < at ==> #[trigger] chars@[k] != c,
            at < chars.len() ==> chars@[at as int] == c,
        decreases chars.len() - at,
    {
        at = at + 1;
    }
    proof {
        let rest = chars@.skip(from as int);
        assert forall|k: int| 0 <= k < at - from implies #[trigger] rest[k] != c by {
            assert(rest[k] == chars@[from + k]);
        }
        first_at_is(rest, c, at - from);
    }
    at
}

/// The texts that a list of string slices holds.
pub open spec fn texts<'a>(list: Seq<&'a str>) -> Seq<Seq<char>> {
    list.map_values(|p: &'a str| p@)
}

/// Split a text at every separator.
pub fn split_at_char<'a>(s: &'a str, sep: char) -> (pieces: Vec<&'a str>)
    ensures
        texts(pieces@) == split(s@, sep),
{
    let chars = chars_of(s);
    let mut pieces: Vec<&'a str> = Vec::new();
    let mut from: usize = 0;
    let mut more: bool = true;
    assert(s@.skip(0) =~= s@);
    assert(texts(pieces@) + split(s@.skip(0), sep) =~= split(s@, sep));
    while more
        invariant
            chars@ == s@,
            from <= chars.len(),
            more ==> texts(pieces@) + split(s@.skip(from as int), sep) == split(s@, sep),
            !more ==> texts(pieces@) == split(s@, sep),
        decreases chars.len() - from + (if more { 1int } else { 0int }),
    {
        let at = find_char(&chars, from, sep);
        let ghost held = pieces@;
        let ghost rest = s@.skip(from as int);
        pieces.push(s.substring_char(from, at));
        proof {
            assert(rest.take(at - from) =~= s@.subrange(from as int, at as int));
            assert(texts(pieces@) =~= texts(held) + seq![rest.take(at - from)]);
        }
        if at < chars.len() {
            proof {
                assert(rest.skip(at - from + 1) =~= s@.skip(at + 1));
                assert(texts(held) + split(rest, sep) =~= texts(pieces@) + split(
                    s@.skip(at + 1),
                    sep,
                ));
            }
            from = at + 1;
        } else {
            assert(rest.take(at - from) =~= rest);
            more = false;
        }
    }
    pieces
}

/// Pieces with the separator put back between them.
pub open spec fn joined(pieces: Seq<Seq<char>>, sep: char) -> Seq<char>
    decreases pieces.len(),
{
    if pieces.len() == 0 {
        seq![]
    } else if pieces.len() == 1 {
        pieces[0]
    } else {
        pieces[0] + seq![sep] + joined(pieces.skip(1), sep)
    }
}

proof fn first_at_stops(s: Seq<char>, c: char)
    ensures
        first_at(s, c) <= s.len(),
        first_at(s, c) < s.len() ==> s[first_at(s, c) as int] == c,
        forall|k: int| 0 <= k < first_at(s, c) ==> #[trigger] s[k] != c,
    decreases s.len(),
{
    if s.len() > 0 && s[0] != c {
        let rest = s.skip(1);
        first_at_stops(rest, c);
        let at = first_at(rest, c) as int;
        if at < rest.len() {
            assert(rest[at] == s[at + 1]);
        }
        assert forall|k: int| 0 <= k < first_at(s, c) implies #[trigger] s[k] != c by {
            if k > 0 {
                assert(rest[k - 1] == s[k]);
            }
        }
    }
}

/// Law: splitting loses nothing and leaves no separator. The pieces joined
/// again are the text, and none of them holds the separator.
pub proof fn split_is_undone_by_join(s: Seq<char>, sep: char)
    ensures
        split(s, sep).len() > 0,
        joined(split(s, sep), sep) == s,
        forall|i: int| 0 <= i < split(s, sep).len() ==> !(#[trigger] split(s, sep)[i]).contains(sep),
    decreases s.len(),
{
    let at = first_at(s, sep) as int;
    first_at_stops(s, sep);
    if at < s.len() {
        let tail = split(s.skip(at + 1), sep);
        split_is_undone_by_join(s.skip(at + 1), sep);
        assert(split(s, sep).skip(1) =~= tail);
        assert(s.take(at) + seq![sep] + s.skip(at + 1) =~= s);
        assert forall|i: int| 0 <= i < split(s, sep).len() implies !(#[trigger] split(
            s,
            sep,
        )[i]).contains(sep) by {
            if i > 0 {
                assert(split(s, sep)[i] == tail[i - 1]);
            } else {
                assert forall|k: int| 0 <= k < at implies s.take(at)[k] != sep by {
                    assert(s[k] != sep);
                }
            }
        }
    } else {
        assert(split(s, sep)[0] == s);
    }
}

/// The value of a decimal digit.
pub open spec fn digit(c: char) -> Option<nat> {
    if '0' <= c && c <= '9' {
        Some((c as u32 - '0' as u32) as nat)
    } else {
        None
    }
}

/// The number that a row of decimal digits writes.
pub open spec fn digits_value(s: Seq<char>) -> Option<nat>
    decreases s.len(),
{
    if s.len() == 0 {
        Some(0)
    } else {
        match (digits_value(s.drop_last()), digit(s.last())) {
            (Some(high), Some(low)) => Some(high * 10 + low),
            _ => None,
        }
    }
}

/// The number that a text writes: decimal digits, at least one, with an
/// optional plus sign in front.
pub open spec fn number_value(s: Seq<char>) -> Option<nat> {
    let digits = if s.len() > 0 && s[0] == '+' {
        s.skip(1)
    } else {
        s
    };
    if digits.len() == 0 {
        None
    } else {
        digits_value(digits)
    }
}

proof fn digits_value_grows(s: Seq<char>, k: int)
    requires
        0 <= k <= s.len(),
    ensures
        digits_value(s.take(k)) is None ==> digits_value(s) is None,
        digits_value(s) is Some ==> digits_value(s.take(k)) is Some && digits_value(s.take(k))->0
            <= digits_value(s)->0,
    decreases s.len() - k,
{
    if k < s.len() {
        digits_value_grows(s, k + 1);
        assert(s.take(k + 1).drop_last() =~= s.take(k));
    } else {
        assert(s.take(k) =~= s);
    }
}

/// Read a number no greater than `max`.
pub fn parse_number(s: &str, max: u64) -> (r: Option<u64>)
    ensures
        r == match number_value(s@) {
            Some(v) => if v <= max {
                Some(v as u64)
            } else {
                None
            },
            None => None,
        },
{
    let chars = chars_of(s);
    let start: usize = if chars.len() > 0 && chars[0] == '+' {
        1
    } else {
        0
    };
    if start == chars.len() {
        return None;
    }
    let ghost digits = s@.skip(start as int);
    let mut i: usize = start;
    let mut value: u64 = 0;
    assert(digits.take(0) =~= Seq::<char>::empty());
    assert(s@.skip(0) =~= s@);
    while i < chars.len()
        invariant
            chars@ == s@,
            start <= i <= chars.len(),
            start < chars.len(),
            digits == s@.skip(start as int),
            start == (if s@.len() > 0 && s@[0] == '+' { 1int } else { 0int }),
            s@.skip(0) == s@,
            digits_value(digits.take(i - start)) == Some(value as nat),
            value <= max,
        decreases chars.len() - i,
    {
        let c = chars[i];
        let ghost next = digits.take(i + 1 - start);
        proof {
            assert(next.drop_last() =~= digits.take(i - start));
            assert(next.last() == c);
            digits_value_grows(digits, i + 1 - start);
        }
        if c < '0' || c > '9' {
            return None;
        }
        let low: u64 = (c as u32 - '0' as u32) as u64;
        if value > max / 10 || low > max - value * 10 {
            return None;
        }
        value = value * 10 + low;
        i = i + 1;
    }
    assert(digits.take(digits.len() as int) =~= digits);
    Some(value)
}

/// A single decimal digit as text.
fn digit_text(d: u64) -> (r: &'static str)
    requires
        d < 10,
    ensures
        r@ == seq![('0' as u32 + d) as char],
{
    proof {
        reveal_strlit("0");
        reveal_strlit("1");
        reveal_strlit("2");
        reveal_strlit("3");
        reveal_strlit("4");
        reveal_strlit("5");
        reveal_strlit("6");
        reveal_strlit("7");
        reveal_strlit("8");
        reveal_strlit("9");
    }
    let r = if d == 0 {
        "0"
    } else if d == 1 {
        "1"
    } else if d == 2 {
        "2"
    } else if d == 3 {
        "3"
    } else if d == 4 {
        "4"
    } else if d == 5 {
        "5"
    } else if d == 6 {
        "6"
    } else if d == 7 {
        "7"
    } else if d == 8 {
        "8"
    } else {
        "9"
    };
    assert(r@ =~= seq![('0' as u32 + d) as char]);
    r
}

/// A number in decimal digits, without leading zeros.
pub open spec fn decimal(n: nat) -> Seq<char>
    decreases n,
{
    if n < 10 {
        seq![('0' as u32 + n) as char]
    } else {
        decimal(n / 10).push(('0' as u32 + n % 10) as char)
    }
}

/// Append a number in decimal digits.
pub(crate) fn append_number(out: &mut String, n: u64)
    ensures
        final(out)@ == old(out)@ + decimal(n as nat),
    decreases n,
{
    if n >= 10 {
        append_number(out, n / 10);
    }
    out.append(digit_text(n % 10));
    assert(out@ =~= old(out)@ + decimal(n as nat));
}

/// A signed number in decimal digits.
pub open spec fn signed_decimal(n: int) -> Seq<char> {
    if n < 0 {
        seq!['-'] + decimal((-n) as nat)
    } else {
        decimal(n as nat)
    }
}

/// Append a signed number in decimal digits.
pub(crate) fn append_signed(out: &mut String, n: i32)
    ensures
        final(out)@ == old(out)@ + signed_decimal(n as int),
{
    if n < 0 {
        proof {
            reveal_strlit("-");
        }
        out.append("-");
        append_number(out, (-(n as i64)) as u64);
        assert("-"@ =~= seq!['-']);
        assert(out@ =~= old(out)@ + signed_decimal(n as int));
    } else {
        append_number(out, n as u64);
    }
}

/// Law: reading a written number gives the number back.
pub proof fn written_numbers_are_read_back(n: nat)
    ensures
        number_value(decimal(n)) == Some(n),
{
    decimal_digits(n);
    assert(digit(decimal(n)[0]) is Some);
}

proof fn decimal_digits(n: nat)
    ensures
        decimal(n).len() > 0,
        digits_value(decimal(n)) == Some(n),
        digit(decimal(n)[0]) is Some,
    decreases n,
{
    if n < 10 {
        assert(decimal(n).drop_last() =~= Seq::<char>::empty());
        assert(digits_value(Seq::<char>::empty()) == Some(0nat));
    } else {
        decimal_digits(n / 10);
        assert(decimal(n).drop_last() =~= decimal(n / 10));
        assert(decimal(n)[0] == decimal(n / 10)[0]);
    }
}

/// The bytes of a C string: everything before the first zero byte.
pub open spec fn before_nul(bytes: Seq<u8>) -> Seq<u8>
    decreases bytes.len(),
{
    if bytes.len() == 0 || bytes[0] == 0 {
        seq![]
    } else {
        seq![bytes[0]] + before_nul(bytes.skip(1))
    }
}

proof fn before_nul_is(bytes: Seq<u8>, at: int)
    requires
        0 <= at <= bytes.len(),
        forall|k: int| 0 <= k < at ==> #[trigger] bytes[k] != 0,
        at < bytes.len() ==> bytes[at] == 0,
    ensures
        before_nul(bytes) == bytes.take(at),
    decreases at,
{
    if at > 0 {
        let rest = bytes.skip(1);
        assert forall|k: int| 0 <= k < at - 1 implies #[trigger] rest[k] != 0 by {
            assert(rest[k] == bytes[k + 1]);
        }
        before_nul_is(rest, at - 1);
        assert(seq![bytes[0]] + rest.take(at - 1) =~= bytes.take(at));
    } else {
        assert(bytes.take(0) =~= Seq::<u8>::empty());
    }
}

/// Where the first zero byte stands, if there is one.
pub(crate) fn find_nul(bytes: &[u8]) -> (at: usize)
    ensures
        at <= bytes@.len(),
        before_nul(bytes@) == bytes@.take(at as int),
        at < bytes@.len() <==> bytes@.contains(0u8),
{
    let mut at: usize = 0;
    while at < bytes.len() && bytes[at] != 0
        invariant
            at <= bytes@.len(),
            forall|k: int| 0 <= k < at ==> #[trigger] bytes@[k] != 0,
        ensures
            at <= bytes@.len(),
            forall|k: int| 0 <= k < at ==> #[trigger] bytes@[k] != 0,
            at < bytes@.len() ==> bytes@[at as int] == 0,
        decreases bytes@.len() - at,
    {
        at = at + 1;
    }
    proof {
        before_nul_is(bytes@, at as int);
        if at < bytes@.len() {
            assert(bytes@.contains(0u8));
        }
    }
    at
}

/// The text of a C string in a buffer. A buffer without a zero byte is one
/// text from end to end. Valid UTF-8 is decoded; the rest is read as well as it
/// can be.
pub open spec fn c_text(bytes: Seq<u8>) -> Seq<char> {
    if vstd::utf8::valid_utf8(before_nul(bytes)) {
        vstd::utf8::decode_utf8(before_nul(bytes))
    } else {
        lossy_text(before_nul(bytes))
    }
}

/// A text holds what a C string of valid UTF-8 encodes: encoded again it gives
/// the bytes back.
pub open spec fn keeps_text(bytes: Seq<u8>, text: Seq<char>) -> bool {
    vstd::utf8::valid_utf8(before_nul(bytes)) ==> vstd::utf8::encode_utf8(text) == before_nul(bytes)
}

/// Law: C strings of valid UTF-8 come through unchanged.
pub proof fn valid_texts_come_through(bytes: Seq<u8>)
    ensures
        keeps_text(bytes, c_text(bytes)),
{
    if vstd::utf8::valid_utf8(before_nul(bytes)) {
        vstd::utf8::decode_utf8_encode_utf8(before_nul(bytes));
    }
}

/// Read the text of a C string out of a buffer.
pub fn text_of_c(bytes: &[u8]) -> (r: String)
    ensures
        r@ == c_text(bytes@),
        keeps_text(bytes@, r@),
{
    let at = find_nul(bytes);
    let r = lossy(vstd::slice::slice_subrange(bytes, 0, at));
    proof {
        vstd::utf8::encode_utf8_decode_utf8(r@);
    }
    r
}

/// The text of an optional C string; a missing one is empty.
pub open spec fn opt_c_text(bytes: Option<Seq<u8>>) -> Seq<char> {
    match bytes {
        Some(b) => c_text(b),
        None => seq![],
    }
}

/// A text holds what an optional C string of valid UTF-8 encodes.
pub open spec fn keeps_opt_text(bytes: Option<Seq<u8>>, text: Seq<char>) -> bool {
    match bytes {
        Some(b) => keeps_text(b, text),
        None => text.len() == 0,
    }
}

/// The bytes of an optional buffer.
pub open spec fn opt_bytes(bytes: Option<&[u8]>) -> Option<Seq<u8>> {
    match bytes {
        Some(b) => Some(b@),
        None => None,
    }
}

/// Read an optional C string; a missing one is empty.
pub fn text_of_opt_c(bytes: Option<&[u8]>) -> (r: String)
    ensures
        r@ == opt_c_text(opt_bytes(bytes)),
        keeps_opt_text(opt_bytes(bytes), r@),
{
    match bytes {
        Some(b) => text_of_c(b),
        None => String::new(),
    }
}

/// Whether two byte strings are equal.
pub(crate) fn same_bytes(a: &[u8], b: &[u8]) -> (r: bool)
    ensures
        r == (a@ == b@),
{
    if a.len() != b.len() {
        return false;
    }
    let mut i: usize = 0;
    while i < a.len()
        invariant
            i <= a@.len(),
            a@.len() == b@.len(),
            forall|k: int| 0 <= k < i ==> a@[k] == b@[k],
        decreases a@.len() - i,
    {
        if a[i] != b[i] {
            return false;
        }
        i = i + 1;
    }
    assert(a@ =~= b@);
    true
}

/// The texts of a list of strings.
pub open spec fn strings(list: Seq<String>) -> Seq<Seq<char>> {
    list.map_values(|s: String| s@)
}

/// Place of the first text equal to `want`; the length where there is none.
pub open spec fn first_equal(list: Seq<Seq<char>>, want: Seq<char>) -> nat
    decreases list.len(),
{
    if list.len() == 0 || list[0] == want {
        0
    } else {
        1 + first_equal(list.skip(1), want)
    }
}

/// Place of the first string equal to `want`, if there is one.
pub fn find_string(list: &Vec<String>, want: &str) -> (at: Option<usize>)
    ensures
        at == if first_equal(strings(list@), want@) < list@.len() {
            Some(first_equal(strings(list@), want@) as usize)
        } else {
            None
        },
        at is Some ==> at->0 < list@.len() && list@[at->0 as int]@ == want@,
        at is Some ==> forall|i: int| 0 <= i < at->0 ==> (#[trigger] list@[i])@ != want@,
        at is None ==> forall|i: int| 0 <= i < list@.len() ==> (#[trigger] list@[i])@ != want@,
{
    let ghost all = strings(list@);
    let mut i: usize = 0;
    assert(all.skip(0) =~= all);
    while i < list.len()
        invariant
            i <= list.len(),
            all == strings(list@),
            first_equal(all, want@) == i + first_equal(all.skip(i as int), want@),
            forall|k: int| 0 <= k < i ==> (#[trigger] list@[k])@ != want@,
        decreases list@.len() - i,
    {
        assert(all.skip(i as int)[0] == list@[i as int]@);
        if same_text(list[i].as_str(), want) {
            return Some(i);
        }
        assert(all.skip(i as int).skip(1) =~= all.skip(i + 1));
        i = i + 1;
    }
    None
}

/// How an optional text is written in messages: `None`, or `Some` of the quoted
/// text.
pub open spec fn quoted_option(s: Option<Seq<char>>) -> Seq<char> {
    match s {
        None => "None"@,
        Some(t) => "Some("@ + quoted_text(t) + ")"@,
    }
}

/// The text of an optional string.
pub open spec fn opt_text(s: Option<&str>) -> Option<Seq<char>> {
    match s {
        Some(t) => Some(t@),
        None => None,
    }
}

pub(crate) fn append_quoted_option(out: &mut String, s: Option<&str>)
    ensures
        final(out)@ == old(out)@ + quoted_option(opt_text(s)),
{
    match s {
        None => out.append("None"),
        Some(t) => {
            out.append("Some(");
            out.append(quoted(t).as_str());
            out.append(")");
            assert(out@ =~= old(out)@ + quoted_option(opt_text(s)));
        },
    }
}

/// Two texts joined.
pub(crate) fn joined_texts(a: &str, b: &str) -> (r: String)
    ensures
        r@ == a@ + b@,
{
    let mut r = a.to_owned();
    r.append(b);
    r
}

/// Law: a C string holds the bytes in front of its first zero byte: all of them,
/// where there is none.
pub proof fn c_strings_end_at_the_first_zero(bytes: Seq<u8>, at: int)
    requires
        0 <= at <= bytes.len(),
        forall|k: int| 0 <= k < at ==> #[trigger] bytes[k] != 0,
        at < bytes.len() ==> bytes[at] == 0,
    ensures
        before_nul(bytes) == bytes.take(at),
{
    before_nul_is(bytes, at);
}

proof fn before_nul_stops(bytes: Seq<u8>)
    ensures
        before_nul(bytes).len() <= bytes.len(),
        before_nul(bytes) == bytes.take(before_nul(bytes).len() as int),
        forall|k: int| 0 <= k < before_nul(bytes).len() ==> #[trigger] bytes[k] != 0,
        before_nul(bytes).len() < bytes.len() ==> bytes[before_nul(bytes).len() as int] == 0,
    decreases bytes.len(),
{
    if bytes.len() == 0 || bytes[0] == 0 {
        assert(before_nul(bytes) =~= bytes.take(0));
    } else {
        let rest = bytes.skip(1);
        before_nul_stops(rest);
        let n = before_nul(rest).len() as int;
        assert(before_nul(bytes) =~= bytes.take(n + 1));
        assert forall|k: int| 0 <= k < n + 1 implies #[trigger] bytes[k] != 0 by {
            if k > 0 {
                assert(rest[k - 1] == bytes[k]);
            }
        }
        if n + 1 < bytes.len() {
            assert(rest[n] == bytes[n + 1]);
        }
    }
}

/// Law: a C string is a given text exactly if it has the same bytes at the same
/// places, none of them zero, and ends right behind them.
pub proof fn c_strings_are_compared_whole(bytes: Seq<u8>, want: Seq<u8>)
    ensures
        before_nul(bytes) == want <==> {
            &&& want.len() <= bytes.len()
            &&& forall|k: int| 0 <= k < want.len() ==> #[trigger] bytes[k] == want[k] && bytes[k] != 0
            &&& want.len() < bytes.len() ==> bytes[want.len() as int] == 0
        },
{
    before_nul_stops(bytes);
    let n = want.len() as int;
    if before_nul(bytes) == want {
        assert forall|k: int| 0 <= k < n implies #[trigger] bytes[k] == want[k] && bytes[k] != 0 by {
            assert(bytes.take(n)[k] == bytes[k]);
        }
    }
    if want.len() <= bytes.len() && (forall|k: int|
        0 <= k < want.len() ==> #[trigger] bytes[k] == want[k] && bytes[k] != 0) && (want.len()
        < bytes.len() ==> bytes[n] == 0) {
        before_nul_is(bytes, n);
        assert(bytes.take(n) =~= want);
    }
}

/// Law: trimming takes the white space at both ends and nothing else. What is
/// left is one stretch of the text, with nothing but white space around it, and
/// neither begins nor ends with any.
pub proof fn trimming_takes_blank_ends(s: Seq<char>)
    ensures
        exists|i: int, j: int| #[trigger]
            s.subrange(i, j) == trimmed(s) && 0 <= i <= j <= s.len() && (forall|k: int|
                (0 <= k < i || j <= k < s.len()) ==> white_space(#[trigger] s[k])),
        trimmed(s).len() > 0 ==> !white_space(trimmed(s)[0]) && !white_space(trimmed(s).last()),
{
    let i = blank_front(s);
    let rest = s.skip(i);
    let m = blank_back(rest);
    assert(rest.take(m) =~= s.subrange(i, i + m));
    assert forall|k: int| (0 <= k < i || i + m <= k < s.len()) implies white_space(
        #[trigger] s[k],
    ) by {
        if k >= i + m {
            assert(rest[k - i] == s[k]);
        }
    }
    if m > 0 {
        assert(rest[0] == rest.take(m)[0]);
    }
}

proof fn blank_front(s: Seq<char>) -> (i: int)
    ensures
        0 <= i <= s.len(),
        trimmed_start(s) == s.skip(i),
        forall|k: int| 0 <= k < i ==> white_space(#[trigger] s[k]),
        i < s.len() ==> !white_space(s[i]),
    decreases s.len(),
{
    if s.len() > 0 && white_space(s[0]) {
        let rest = s.skip(1);
        let i = blank_front(rest);
        assert(rest.skip(i) =~= s.skip(i + 1));
        assert forall|k: int| 0 <= k < i + 1 implies white_space(#[trigger] s[k]) by {
            if k > 0 {
                assert(rest[k - 1] == s[k]);
            }
        }
        i + 1
    } else {
        assert(s.skip(0) =~= s);
        0
    }
}

proof fn blank_back(s: Seq<char>) -> (j: int)
    ensures
        0 <= j <= s.len(),
        trimmed_end(s) == s.take(j),
        forall|k: int| j <= k < s.len() ==> white_space(#[trigger] s[k]),
        j > 0 ==> !white_space(s[j - 1]),
    decreases s.len(),
{
    if s.len() > 0 && white_space(s.last()) {
        let front = s.drop_last();
        let j = blank_back(front);
        assert(front.take(j) =~= s.take(j));
        assert forall|k: int| j <= k < s.len() implies white_space(#[trigger] s[k]) by {
            if k < front.len() {
                assert(front[k] == s[k]);
            }
        }
        j
    } else {
        assert(s.take(s.len() as int) =~= s);
        s.len() as int
    }
}

/// Law: a text occurs in another exactly if it stands in it with something or
/// nothing before and behind it.
pub proof fn texts_occur_anywhere(before: Seq<char>, needle: Seq<char>, after: Seq<char>)
    ensures
        occurs(needle, before + needle + after),
{
    let hay = before + needle + after;
    let at = before.len() as int;
    assert(hay.subrange(at, at + needle.len()) =~= needle);
    assert(occurs_at(needle, hay, at));
}

/// Law: a text that occurs in another is part of it.
pub proof fn occurring_texts_are_parts(needle: Seq<char>, hay: Seq<char>)
    requires
        occurs(needle, hay),
    ensures
        exists|before: Seq<char>, after: Seq<char>| hay == #[trigger] (before + needle + after),
{
    let at = choose|at: int| occurs_at(needle, hay, at);
    let (before, after) = (hay.take(at), hay.skip(at + needle.len()));
    assert(hay =~= before + needle + after);
}

/// Law: a number is written digit by digit to the base ten, without leading
/// zeros.
pub proof fn numbers_are_written_to_base_ten(n: nat, d: nat)
    requires
        d < 10,
    ensures
        decimal(d) == seq![('0' as u32 + d) as char],
        n > 0 ==> decimal(n * 10 + d) == decimal(n).push(('0' as u32 + d) as char),
        signed_decimal(n as int) == decimal(n),
        n > 0 ==> signed_decimal(-(n as int)) == seq!['-'] + decimal(n),
{
    assert((n * 10 + d) / 10 == n);
    assert((n * 10 + d) % 10 == d);
}

/// Law: a text is a number exactly if it is a row of digits, one at least, with
/// or without a plus sign in front; one more digit makes it ten times as much and
/// the digit.
pub proof fn numbers_are_rows_of_digits(s: Seq<char>, c: char)
    ensures
        s.len() == 0 || s[0] != '+' ==> (number_value(s) is Some <==> s.len() > 0 && forall|k: int|
            0 <= k < s.len() ==> '0' <= #[trigger] s[k] <= '9'),
        s.len() > 0 && s[0] == '+' ==> (number_value(s) is Some <==> s.len() > 1 && forall|k: int|
            0 <= k < s.skip(1).len() ==> '0' <= #[trigger] s.skip(1)[k] <= '9'),
        s.len() > 0 && s[0] != '+' ==> number_value(s) == digits_value(s),
        number_value(seq!['+'] + s) == if s.len() > 0 {
            digits_value(s)
        } else {
            None
        },
        digits_value(Seq::empty()) == Some(0nat),
        digits_value(s) is Some && '0' <= c <= '9' ==> digits_value(s.push(c)) == Some(
            (digits_value(s)->0 * 10 + (c as u32 - '0' as u32)) as nat,
        ),
{
    digits_only(s);
    if s.len() > 0 {
        digits_only(s.skip(1));
    }
    assert((seq!['+'] + s).skip(1) =~= s);
    assert(s.push(c).drop_last() =~= s);
}

proof fn digits_only(s: Seq<char>)
    ensures
        digits_value(s) is Some <==> forall|k: int|
            0 <= k < s.len() ==> '0' <= #[trigger] s[k] <= '9',
    decreases s.len(),
{
    if s.len() > 0 {
        let front = s.drop_last();
        digits_only(front);
        assert(s[s.len() - 1] == s.last());
        if digits_value(s) is Some {
            assert forall|k: int| 0 <= k < s.len() implies '0' <= #[trigger] s[k] <= '9' by {
                if k < front.len() {
                    assert(front[k] == s[k]);
                }
            }
        }
        if forall|k: int| 0 <= k < s.len() ==> '0' <= #[trigger] s[k] <= '9' {
            assert forall|k: int| 0 <= k < front.len() implies '0' <= #[trigger] front[k]
                <= '9' by {
                assert(front[k] == s[k]);
            }
        }
    }
}

/// Law: a text is found at the first place of a list where it stands.
pub proof fn texts_are_found_first(list: Seq<Seq<char>>, want: Seq<char>, at: int)
    requires
        0 <= at <= list.len(),
        forall|k: int| 0 <= k < at ==> #[trigger] list[k] != want,
        at < list.len() ==> list[at] == want,
    ensures
        first_equal(list, want) == at,
    decreases list.len(),
{
    if at > 0 {
        let rest = list.skip(1);
        assert forall|k: int| 0 <= k < at - 1 implies #[trigger] rest[k] != want by {
            assert(rest[k] == list[k + 1]);
        }
        texts_are_found_first(rest, want, at - 1);
    }
}

/// Law: a missing C string is empty, and one that is no valid UTF-8 is read as
/// well as it can be, up to its first zero byte.
pub proof fn texts_of_plugins_are_read(bytes: Seq<u8>)
    ensures
        opt_c_text(None).len() == 0,
        opt_c_text(Some(bytes)) == c_text(bytes),
        !vstd::utf8::valid_utf8(before_nul(bytes)) ==> c_text(bytes) == lossy_text(
            before_nul(bytes),
        ),
        keeps_opt_text(Some(bytes), c_text(bytes)),
{
    valid_texts_come_through(bytes);
}

/// Law: a text is written in messages as it is, in quotes, and a missing one as
/// such.
pub proof fn missing_texts_are_told(s: Seq<char>)
    ensures
        quoted_option(None) == "None"@,
        quoted_option(Some(s)) == "Some("@ + quoted_text(s) + ")"@,
{
}

/// Law: a text is cut at the first place where a character stands.
pub proof fn characters_are_found_first(front: Seq<char>, c: char, back: Seq<char>)
    requires
        !front.contains(c),
    ensures
        first_at(front, c) == front.len(),
        first_at(front + seq![c] + back, c) == front.len(),
{
    let s = front + seq![c] + back;
    let n = front.len() as int;
    assert forall|k: int| 0 <= k < n implies #[trigger] s[k] != c by {
        assert(s[k] == front[k]);
    }
    assert forall|k: int| 0 <= k < n implies #[trigger] front[k] != c by {}
    first_at_is(s, c, n);
    first_at_is(front, c, n);
}

/// Law: a written number has nothing to trim.
pub proof fn written_numbers_are_not_blank(n: nat)
    ensures
        trimmed(decimal(n)) == decimal(n),
        !decimal(n).contains('='),
        decimal(n)[0] != '+',
{
    let s = decimal(n);
    decimal_digits(n);
    digits_only(s);
    assert('0' <= s[0] <= '9');
    assert('0' <= s[s.len() - 1] <= '9');
    assert(trimmed_start(s) == s);
    assert(trimmed_end(s) == s);
    assert forall|k: int| 0 <= k < s.len() implies s[k] != '=' by {
        assert('0' <= s[k] <= '9');
    }
}

} // verus!
