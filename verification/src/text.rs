//! Small building blocks for text: comparison, copying by characters and numbers in digits.
use vstd::prelude::*;
use vstd::string::*;

verus! {

/// `String::push` appends one character.
pub assume_specification[ String::push ](string: &mut String, c: char)
    ensures
        final(string)@ == old(string)@.push(c),
;

/// Compares two texts.
pub fn same_text(a: &str, b: &str) -> (same: bool)
    ensures
        same == (a@ == b@),
{
    let left: Vec<char> = to_chars(a);
    let right: Vec<char> = to_chars(b);
    same_chars(&left, &right)
}

/// Compares two runs of characters.
pub fn same_chars(a: &[char], b: &[char]) -> (same: bool)
    ensures
        same == (a@ == b@),
{
    if a.len() != b.len() {
        return false;
    }
    let mut i: usize = 0;
    while i < a.len()
        invariant
            a@.len() == b@.len(),
            i <= a@.len(),
            forall|j: int| 0 <= j < i ==> a@[j] == b@[j],
        decreases a@.len() - i,
    {
        if a[i] != b[i] {
            return false;
        }
        i = i + 1;
    }
    assert(a@ =~= b@);
    true
}

/// Lists the characters of a text.
pub fn to_chars(text: &str) -> (chars: Vec<char>)
    ensures
        chars@ == text@,
{
    let mut chars: Vec<char> = Vec::new();
    for c in it: text.chars()
        invariant
            it.seq() == text@,
            chars@ == text@.take(it.index() as int),
    {
        chars.push(c);
        assert(chars@ =~= text@.take(it.index() as int + 1));
    }
    assert(text@.take(text@.len() as int) =~= text@);
    chars
}

/// Joins characters to a text.
pub fn from_chars(chars: &[char]) -> (text: String)
    ensures
        text@ == chars@,
{
    let mut text: String = String::new();
    let mut i: usize = 0;
    while i < chars.len()
        invariant
            i <= chars@.len(),
            text@ == chars@.take(i as int),
        decreases chars@.len() - i,
    {
        text.push(chars[i]);
        i = i + 1;
        assert(text@ =~= chars@.take(i as int));
    }
    assert(chars@.take(chars@.len() as int) =~= chars@);
    text
}

/// The digit for `value`, which is less than sixteen, with lower case letters past nine.
pub open spec fn digit(value: nat) -> char {
    if value < 10 {
        ('0' as u32 + value) as char
    } else {
        ('a' as u32 + (value - 10)) as char
    }
}

/// The digits of `value` in a base of at most sixteen, without leading zeros.
pub open spec fn digits(value: nat, base: nat) -> Seq<char>
    decreases value,
{
    if base < 2 || value < base {
        seq![digit(value)]
    } else {
        proof {
            assert(value / base < value) by (nonlinear_arith)
                requires
                    2 <= base <= value,
            ;
        }
        digits(value / base, base).push(digit(value % base))
    }
}

/// The decimal digits of `value`.
pub open spec fn decimal(value: nat) -> Seq<char> {
    digits(value, 10)
}

/// Writes one digit.
fn digit_char(value: u8) -> (c: char)
    requires
        value < 16,
    ensures
        c == digit(value as nat),
{
    if value < 10 {
        (48u8 + value) as char
    } else {
        (87u8 + value) as char
    }
}

/// Appends the digits of a number in base ten or sixteen.
pub fn push_digits(out: &mut String, value: u128, base: u128)
    requires
        2 <= base <= 16,
    ensures
        final(out)@ == old(out)@ + digits(value as nat, base as nat),
    decreases value,
{
    if value < base {
        out.push(digit_char(value as u8));
        assert(out@ =~= old(out)@ + digits(value as nat, base as nat));
    } else {
        assert(value / base < value && value % base < base) by (nonlinear_arith)
            requires
                2 <= base,
                value >= base,
        ;
        push_digits(out, value / base, base);
        out.push(digit_char((value % base) as u8));
        assert(out@ =~= old(out)@ + digits(value as nat, base as nat));
    }
}

/// Appends a number in decimal.
pub fn push_decimal(out: &mut String, value: u64)
    ensures
        final(out)@ == old(out)@ + decimal(value as nat),
{
    push_digits(out, value as u128, 10);
}

/// Whether `part` stands in `whole` from character `at` on.
pub open spec fn occurs_at(whole: Seq<char>, part: Seq<char>, at: int) -> bool {
    0 <= at && at + part.len() <= whole.len() && whole.subrange(at, at + part.len()) == part
}

/// Whether `part` stands anywhere in `whole`.
pub open spec fn occurs(whole: Seq<char>, part: Seq<char>) -> bool {
    exists|at: int| occurs_at(whole, part, at)
}

/// Tests whether `part` stands in `whole` from character `at` on.
pub fn stands_at(whole: &[char], part: &[char], at: usize) -> (stands: bool)
    ensures
        stands == occurs_at(whole@, part@, at as int),
{
    let total: usize = whole.len();
    if at > total || part.len() > total - at {
        return false;
    }
    let mut i: usize = 0;
    while i < part.len()
        invariant
            total == whole@.len(),
            at + part@.len() <= total,
            i <= part@.len(),
            forall|j: int| 0 <= j < i ==> whole@[at + j] == part@[j],
        decreases part@.len() - i,
    {
        if whole[at + i] != part[i] {
            assert(whole@.subrange(at as int, at + part@.len())[i as int] != part@[i as int]);
            return false;
        }
        i = i + 1;
    }
    assert(whole@.subrange(at as int, at + part@.len()) =~= part@);
    true
}

/// Tests whether `part` stands anywhere in `whole`.
pub fn contains_text(whole: &str, part: &str) -> (contains: bool)
    ensures
        contains == occurs(whole@, part@),
{
    let chars: Vec<char> = to_chars(whole);
    let wanted: Vec<char> = to_chars(part);
    let mut at: usize = 0;
    while at < chars.len()
        invariant
            chars@ == whole@,
            wanted@ == part@,
            at <= chars@.len(),
            forall|j: int| 0 <= j < at ==> !occurs_at(whole@, part@, j),
        decreases chars@.len() - at,
    {
        if stands_at(&chars, &wanted, at) {
            return true;
        }
        at = at + 1;
    }
    stands_at(&chars, &wanted, at)
}

/// A text in lower case, as Unicode maps it.
pub uninterp spec fn lowercase(text: Seq<char>) -> Seq<char>;

/// Calls `str::to_lowercase`. Trusted: the result depends on the text alone.
#[verifier::external_body]
pub(crate) fn to_lowercase(text: &str) -> (lower: String)
    ensures
        lower@ == lowercase(text@),
{
    text.to_lowercase()
}

/// Whether a text stands before another in the order of their characters.
pub open spec fn text_before(a: Seq<char>, b: Seq<char>) -> bool
    decreases a.len(),
{
    if b.len() == 0 {
        false
    } else if a.len() == 0 {
        true
    } else if a[0] != b[0] {
        a[0] < b[0]
    } else {
        text_before(a.skip(1), b.skip(1))
    }
}

/// Tests whether a text stands before another.
pub fn stands_before(a: &str, b: &str) -> (before: bool)
    ensures
        before == text_before(a@, b@),
{
    let left: Vec<char> = to_chars(a);
    let right: Vec<char> = to_chars(b);
    let mut i: usize = 0;
    assert(left@.skip(0) =~= left@);
    assert(right@.skip(0) =~= right@);
    while i < left.len() && i < right.len()
        invariant
            left@ == a@,
            right@ == b@,
            i <= left@.len(),
            i <= right@.len(),
            text_before(a@, b@) == text_before(left@.skip(i as int), right@.skip(i as int)),
        decreases left@.len() - i,
    {
        proof {
            assert(left@.skip(i as int).skip(1) =~= left@.skip(i as int + 1));
            assert(right@.skip(i as int).skip(1) =~= right@.skip(i as int + 1));
        }
        if left[i] != right[i] {
            return left[i] < right[i];
        }
        i = i + 1;
    }
    i < right.len()
}

/// The order of texts is strict: of two different texts exactly one stands before the other, and no
/// text stands before itself.
pub proof fn text_order_is_strict(a: Seq<char>, b: Seq<char>)
    ensures
        a == b ==> !text_before(a, b),
        a != b ==> text_before(a, b) != text_before(b, a),
    decreases a.len(),
{
    if a.len() > 0 && b.len() > 0 && a[0] == b[0] {
        text_order_is_strict(a.skip(1), b.skip(1));
        if a.skip(1) == b.skip(1) {
            assert(a =~= seq![a[0]] + a.skip(1));
            assert(b =~= seq![b[0]] + b.skip(1));
        }
    } else if a.len() == 0 && b.len() == 0 {
        assert(a =~= b);
    }
}

/// A text before one that stands before a third stands before the third.
pub proof fn text_order_is_transitive(a: Seq<char>, b: Seq<char>, c: Seq<char>)
    requires
        text_before(a, b),
        text_before(b, c),
    ensures
        text_before(a, c),
    decreases a.len(),
{
    if a.len() > 0 && a[0] == b[0] && b[0] == c[0] {
        text_order_is_transitive(a.skip(1), b.skip(1), c.skip(1));
    }
}

/// Whether a character is white space: it has the Unicode property of that name.
pub open spec fn is_white(c: char) -> bool {
    let n = c as u32;
    ||| 0x09 <= n <= 0x0D
    ||| n == 0x20
    ||| n == 0x85
    ||| n == 0xA0
    ||| n == 0x1680
    ||| 0x2000 <= n <= 0x200A
    ||| n == 0x2028
    ||| n == 0x2029
    ||| n == 0x202F
    ||| n == 0x205F
    ||| n == 0x3000
}

/// Tests whether a character is white space.
pub fn whitespace(c: char) -> (white: bool)
    ensures
        white == is_white(c),
{
    let n: u32 = c as u32;
    (0x09 <= n && n <= 0x0D) || n == 0x20 || n == 0x85 || n == 0xA0 || n == 0x1680 || (0x2000 <= n
        && n <= 0x200A) || n == 0x2028 || n == 0x2029 || n == 0x202F || n == 0x205F || n == 0x3000
}

/// A text without the white space in front of it.
pub open spec fn skip_white(s: Seq<char>) -> Seq<char>
    decreases s.len(),
{
    if s.len() > 0 && is_white(s[0]) {
        skip_white(s.skip(1))
    } else {
        s
    }
}

/// A text without the white space behind it.
pub open spec fn drop_white(s: Seq<char>) -> Seq<char>
    decreases s.len(),
{
    if s.len() > 0 && is_white(s.last()) {
        drop_white(s.drop_last())
    } else {
        s
    }
}

/// A text without the white space around it.
pub open spec fn trimmed(s: Seq<char>) -> Seq<char> {
    drop_white(skip_white(s))
}

/// Finds the first character from `from` on that is not white space.
pub fn white_end(chars: &Vec<char>, from: usize) -> (end: usize)
    requires
        from <= chars@.len(),
    ensures
        from <= end <= chars@.len(),
        skip_white(chars@.skip(from as int)) == chars@.skip(end as int),
{
    let mut i: usize = from;
    while i < chars.len() && whitespace(chars[i])
        invariant
            from <= i <= chars@.len(),
            skip_white(chars@.skip(from as int)) == skip_white(chars@.skip(i as int)),
        decreases chars@.len() - i,
    {
        assert(chars@.skip(i as int).skip(1) =~= chars@.skip(i as int + 1));
        i = i + 1;
    }
    i
}

/// Copies the characters of a range.
pub fn copy_range(chars: &Vec<char>, start: usize, end: usize) -> (part: String)
    requires
        start <= end <= chars@.len(),
    ensures
        part@ == chars@.subrange(start as int, end as int),
{
    let mut part: String = String::new();
    let mut i: usize = start;
    while i < end
        invariant
            start <= i <= end <= chars@.len(),
            part@ == chars@.subrange(start as int, i as int),
        decreases end - i,
    {
        part.push(chars[i]);
        i = i + 1;
        assert(part@ =~= chars@.subrange(start as int, i as int));
    }
    part
}

/// Copies what stands from `from` on without the white space around it.
pub fn trim_from(chars: &Vec<char>, from: usize) -> (part: String)
    requires
        from <= chars@.len(),
    ensures
        part@ == trimmed(chars@.skip(from as int)),
{
    let start: usize = white_end(chars, from);
    let mut end: usize = chars.len();
    assert(chars@.subrange(start as int, end as int) =~= chars@.skip(start as int));
    while end > start && whitespace(chars[end - 1])
        invariant
            start <= end <= chars@.len(),
            drop_white(chars@.skip(start as int)) == drop_white(
                chars@.subrange(start as int, end as int),
            ),
        decreases end,
    {
        assert(chars@.subrange(start as int, end as int).drop_last() =~= chars@.subrange(
            start as int,
            end - 1,
        ));
        end = end - 1;
    }
    copy_range(chars, start, end)
}

/// Where a part first stands in a text.
pub open spec fn first_occurrence(whole: Seq<char>, part: Seq<char>) -> Option<int>
    decreases whole.len(),
{
    if occurs_at(whole, part, 0) {
        Some(0)
    } else if whole.len() == 0 {
        None
    } else {
        match first_occurrence(whole.skip(1), part) {
            Some(at) => Some(at + 1),
            None => None,
        }
    }
}

/// Finds where a part first stands from `from` on.
pub fn find_from(whole: &Vec<char>, part: &Vec<char>, from: usize) -> (found: Option<usize>)
    requires
        from <= whole@.len(),
    ensures
        match found {
            Some(at) => from <= at && at + part@.len() <= whole@.len() && first_occurrence(
                whole@.skip(from as int),
                part@,
            ) == Some(at - from) && occurs_at(whole@, part@, at as int),
            None => first_occurrence(whole@.skip(from as int), part@) is None,
        },
{
    let total: usize = whole.len();
    let mut i: usize = from;
    loop
        invariant
            total == whole@.len(),
            from <= i <= total,
            match first_occurrence(whole@.skip(i as int), part@) {
                Some(at) => first_occurrence(whole@.skip(from as int), part@) == Some(
                    at + (i - from),
                ),
                None => first_occurrence(whole@.skip(from as int), part@) is None,
            },
        decreases total - i,
    {
        let ghost rest = whole@.skip(i as int);
        proof {
            if i + part@.len() <= total {
                assert(rest.subrange(0, part@.len() as int) =~= whole@.subrange(
                    i as int,
                    i + part@.len(),
                ));
            }
        }
        if part.len() <= total - i && stands_at(whole, part, i) {
            assert(occurs_at(rest, part@, 0));
            return Some(i);
        }
        assert(!occurs_at(rest, part@, 0));
        if i == total {
            return None;
        }
        assert(rest.skip(1) =~= whole@.skip(i as int + 1));
        i = i + 1;
    }
}

/// Calls `str::from_utf8`. Trusted: it accepts exactly the bytes that encode a text, and gives that
/// text.
#[verifier::external_body]
pub(crate) fn decode_text(bytes: &[u8]) -> (decoded: Option<String>)
    ensures
        match decoded {
            Some(text) => vstd::utf8::valid_utf8(bytes@) && text@ == vstd::utf8::decode_utf8(
                bytes@,
            ),
            None => !vstd::utf8::valid_utf8(bytes@),
        },
{
    std::str::from_utf8(bytes).ok().map(|text| text.to_owned())
}

/// A part that stands at no place before `at`, but there, first stands there.
pub proof fn lemma_first_occurrence(whole: Seq<char>, part: Seq<char>, at: int)
    requires
        occurs_at(whole, part, at),
        forall|i: int| 0 <= i < at ==> !#[trigger] occurs_at(whole, part, i),
    ensures
        first_occurrence(whole, part) == Some(at),
    decreases whole.len(),
{
    if at > 0 {
        assert(!occurs_at(whole, part, 0));
        let rest = whole.skip(1);
        assert(rest.subrange(at - 1, at - 1 + part.len()) =~= whole.subrange(at, at + part.len()));
        assert forall|i: int| 0 <= i < at - 1 implies !#[trigger] occurs_at(rest, part, i) by {
            assert(!occurs_at(whole, part, i + 1));
            if occurs_at(rest, part, i) {
                assert(whole.subrange(i + 1, i + 1 + part.len()) =~= rest.subrange(
                    i,
                    i + part.len(),
                ));
            }
        }
        lemma_first_occurrence(rest, part, at - 1);
    }
}

/// A digit up to nine is the character so far behind zero, and one from ten on the letter so far
/// behind a small `a`.
pub proof fn digits_are_characters_in_order(value: nat)
    requires
        value < 16,
    ensures
        value < 10 ==> digit(value) as u32 == 48 + value,
        value >= 10 ==> digit(value) as u32 == 97 + (value - 10),
{
}

/// Behind the digits of a number stands one more for each power of the base: the digits of `base`
/// times a number and a rest are those of the number with that of the rest behind them. A number less
/// than the base is one digit.
pub proof fn digits_grow_by_the_rest(value: nat, rest: nat, base: nat)
    requires
        2 <= base <= 16,
        rest < base,
    ensures
        digits(rest, base) == seq![digit(rest)],
        value > 0 ==> digits(value * base + rest, base) == digits(value, base).push(digit(rest)),
{
    if value > 0 {
        let whole = value * base + rest;
        assert(whole >= base && whole / base == value && whole % base == rest) by (nonlinear_arith)
            requires
                whole == value * base + rest,
                rest < base,
                value > 0,
                base >= 2,
        ;
    }
}

/// A part stands at a place exactly where its characters follow one another from there on.
pub proof fn parts_stand_character_by_character(whole: Seq<char>, part: Seq<char>, at: int)
    ensures
        occurs_at(whole, part, at) <==> 0 <= at && at + part.len() <= whole.len() && forall|i: int|
            0 <= i < part.len() ==> whole[at + i] == #[trigger] part[i],
{
    if 0 <= at && at + part.len() <= whole.len() {
        let there = whole.subrange(at, at + part.len());
        if occurs_at(whole, part, at) {
            assert forall|i: int| 0 <= i < part.len() implies whole[at + i] == #[trigger] part[i] by {
                assert(there[i] == whole[at + i]);
            }
        }
        if forall|i: int| 0 <= i < part.len() ==> whole[at + i] == #[trigger] part[i] {
            assert(there =~= part);
        }
    }
}

/// Where a part is found it stands, and it stands nowhere before; where it is not found it stands
/// nowhere.
pub proof fn parts_are_found_where_they_first_stand(whole: Seq<char>, part: Seq<char>, at: int)
    ensures
        first_occurrence(whole, part) matches Some(found) ==> {
            &&& occurs_at(whole, part, found)
            &&& 0 <= at < found ==> !occurs_at(whole, part, at)
        },
        first_occurrence(whole, part) is None ==> !occurs_at(whole, part, at),
    decreases whole.len(),
{
    if !occurs_at(whole, part, 0) && whole.len() > 0 {
        let rest = whole.skip(1);
        parts_are_found_where_they_first_stand(rest, part, at - 1);
        if let Some(found) = first_occurrence(rest, part) {
            assert(rest.subrange(found, found + part.len()) =~= whole.subrange(
                found + 1,
                found + 1 + part.len(),
            ));
        }
        if occurs_at(whole, part, at) && at > 0 {
            assert(rest.subrange(at - 1, at - 1 + part.len()) =~= whole.subrange(
                at,
                at + part.len(),
            ));
        }
    }
}

/// Of two texts that begin alike the shorter one stands first, and else the one whose first different
/// character comes first.
pub proof fn the_first_difference_decides(
    common: Seq<char>,
    a: Seq<char>,
    b: Seq<char>,
)
    requires
        a.len() > 0,
        b.len() > 0,
        a[0] < b[0],
    ensures
        text_before(common + a, common + b),
        text_before(common, common + b),
        !text_before(common + b, common + a),
        !text_before(common + b, common),
    decreases common.len(),
{
    if common.len() == 0 {
        assert(common + a =~= a);
        assert(common + b =~= b);
    } else {
        let rest = common.skip(1);
        the_first_difference_decides(rest, a, b);
        assert((common + a).skip(1) =~= rest + a);
        assert((common + b).skip(1) =~= rest + b);
        assert((common + a)[0] == common[0] && (common + b)[0] == common[0]);
    }
}

/// Among the plain characters the space and the five from tab to carriage return are white space, and
/// no others.
pub proof fn plain_white_space_is_few(c: char)
    requires
        (c as u32) < 0x80,
    ensures
        is_white(c) <==> c == ' ' || c == '\t' || c == '\n' || c == '\r' || c as u32 == 0x0B || c as u32
            == 0x0C,
{
}

/// Trimming a text takes away white space at its ends and nothing else: what is left stands in the
/// text, has white space alone around it, and neither begins nor ends with any.
pub proof fn trimming_takes_white_space_alone(s: Seq<char>) -> (kept: (int, int))
    ensures
        0 <= kept.0 <= kept.1 <= s.len(),
        trimmed(s) == s.subrange(kept.0, kept.1),
        forall|i: int| 0 <= i < kept.0 ==> is_white(#[trigger] s[i]),
        forall|i: int| kept.1 <= i < s.len() ==> is_white(#[trigger] s[i]),
        kept.0 < kept.1 ==> !is_white(s[kept.0]) && !is_white(s[kept.1 - 1]),
{
    let start = lemma_front_is_skipped(s);
    let rest = s.subrange(start, s.len() as int);
    let len = lemma_back_is_dropped(rest);
    let end = start + len;
    assert(s.subrange(start, end) =~= rest.subrange(0, len));
    assert forall|i: int| end <= i < s.len() implies is_white(#[trigger] s[i]) by {
        assert(rest[i - start] == s[i]);
    }
    if start < end {
        assert(rest[len - 1] == s[end - 1]);
    }
    (start, end)
}

proof fn lemma_front_is_skipped(s: Seq<char>) -> (start: int)
    ensures
        0 <= start <= s.len(),
        skip_white(s) == s.subrange(start, s.len() as int),
        forall|i: int| 0 <= i < start ==> is_white(#[trigger] s[i]),
        start < s.len() ==> !is_white(s[start]),
    decreases s.len(),
{
    if s.len() > 0 && is_white(s[0]) {
        let rest = s.skip(1);
        let start = lemma_front_is_skipped(rest) + 1;
        assert(rest.subrange(start - 1, rest.len() as int) =~= s.subrange(start, s.len() as int));
        assert forall|i: int| 0 <= i < start implies is_white(#[trigger] s[i]) by {
            if i > 0 {
                assert(rest[i - 1] == s[i]);
            }
        }
        if start < s.len() {
            assert(rest[start - 1] == s[start]);
        }
        start
    } else {
        assert(s.subrange(0, s.len() as int) =~= s);
        0
    }
}

proof fn lemma_back_is_dropped(s: Seq<char>) -> (end: int)
    ensures
        0 <= end <= s.len(),
        drop_white(s) == s.subrange(0, end),
        forall|i: int| end <= i < s.len() ==> is_white(#[trigger] s[i]),
        end > 0 ==> !is_white(s[end - 1]),
    decreases s.len(),
{
    if s.len() > 0 && is_white(s.last()) {
        let rest = s.drop_last();
        let end = lemma_back_is_dropped(rest);
        assert(rest.subrange(0, end) =~= s.subrange(0, end));
        assert forall|i: int| end <= i < s.len() implies is_white(#[trigger] s[i]) by {
            if i < rest.len() {
                assert(rest[i] == s[i]);
            }
        }
        end
    } else {
        assert(s.subrange(0, s.len() as int) =~= s);
        s.len() as int
    }
}

/// One text stands in another exactly if the other is made of something, the text, and something more.
pub proof fn parts_have_something_around_them(whole: Seq<char>, part: Seq<char>)
    ensures
        occurs(whole, part) <==> exists|before: Seq<char>, after: Seq<char>|
            whole == #[trigger] (before + part + after),
{
    if occurs(whole, part) {
        let at = choose|at: int| occurs_at(whole, part, at);
        let before = whole.take(at);
        let after = whole.skip(at + part.len());
        assert(whole =~= before + part + after);
    }
    if exists|before: Seq<char>, after: Seq<char>| whole == #[trigger] (before + part + after) {
        let (before, after) = choose|before: Seq<char>, after: Seq<char>|
            whole == #[trigger] (before + part + after);
        let at: int = before.len() as int;
        assert(whole.subrange(at, at + part.len()) =~= part);
        assert(occurs_at(whole, part, at));
    }
}

/// A text stands before another exactly if it is a beginning of the other, which is longer, or has the smaller
/// character where they first differ.
pub proof fn texts_stand_by_their_first_difference(a: Seq<char>, b: Seq<char>)
    ensures
        text_before(a, b) <==> exists|at: int|
            {
                &&& 0 <= at <= a.len() && at < b.len()
                &&& #[trigger] a.take(at) == b.take(at)
                &&& at == a.len() || a[at] < b[at]
            },
{
    if text_before(a, b) {
        lemma_first_difference(a, b);
    }
    if exists|at: int|
        {
            &&& 0 <= at <= a.len() && at < b.len()
            &&& #[trigger] a.take(at) == b.take(at)
            &&& at == a.len() || a[at] < b[at]
        } {
        let at = choose|at: int|
            {
                &&& 0 <= at <= a.len() && at < b.len()
                &&& #[trigger] a.take(at) == b.take(at)
                &&& at == a.len() || a[at] < b[at]
            };
        let common = a.take(at);
        assert(b =~= common + b.skip(at));
        if at == a.len() {
            assert(common =~= a);
            assert(b.skip(at)[0] == b[at]);
            lemma_longer_texts_come_later(a, b.skip(at));
        } else {
            assert(a =~= common + a.skip(at));
            assert(a.skip(at)[0] == a[at] && b.skip(at)[0] == b[at]);
            the_first_difference_decides(common, a.skip(at), b.skip(at));
        }
    }
}

/// Where a text that stands before another first differs from it.
proof fn lemma_first_difference(a: Seq<char>, b: Seq<char>) -> (at: int)
    requires
        text_before(a, b),
    ensures
        0 <= at <= a.len() && at < b.len(),
        a.take(at) == b.take(at),
        at == a.len() || a[at] < b[at],
    decreases a.len(),
{
    if a.len() == 0 || a[0] != b[0] {
        assert(a.take(0) =~= b.take(0));
        0
    } else {
        let next = lemma_first_difference(a.skip(1), b.skip(1));
        assert forall|i: int| 0 <= i < next + 1 implies a[i] == b[i] by {
            if i > 0 {
                assert(a.skip(1).take(next)[i - 1] == b.skip(1).take(next)[i - 1]);
            }
        }
        assert(a.take(next + 1) =~= b.take(next + 1));
        next + 1
    }
}

/// A text stands before every longer one that begins with it.
proof fn lemma_longer_texts_come_later(a: Seq<char>, rest: Seq<char>)
    requires
        rest.len() > 0,
    ensures
        text_before(a, a + rest),
    decreases a.len(),
{
    if a.len() > 0 {
        lemma_longer_texts_come_later(a.skip(1), rest);
        assert((a + rest).skip(1) =~= a.skip(1) + rest);
    }
}

} // verus!
