//! The small part of HTTP that the development server speaks: the head of a request line by line,
//! and the framing of a response.
use crate::text;
use crate::utf16;
use vstd::prelude::*;
use vstd::string::*;

verus! {

/// How many characters stand before the first white space.
pub open spec fn word_len(s: Seq<char>) -> nat
    decreases s.len(),
{
    if s.len() == 0 || text::is_white(s[0]) {
        0
    } else {
        1 + word_len(s.skip(1))
    }
}

/// The first word of a text, which is empty where there is none.
pub open spec fn first_word(s: Seq<char>) -> Seq<char> {
    text::skip_white(s).take(word_len(text::skip_white(s)) as int)
}

/// What stands behind the first word.
pub open spec fn after_word(s: Seq<char>) -> Seq<char> {
    text::skip_white(s).skip(word_len(text::skip_white(s)) as int)
}

/// Finds the first white space from `from` on.
fn word_end(chars: &Vec<char>, from: usize) -> (end: usize)
    requires
        from <= chars@.len(),
    ensures
        from <= end <= chars@.len(),
        word_len(chars@.skip(from as int)) == end - from,
{
    let mut i: usize = from;
    while i < chars.len() && !text::whitespace(chars[i])
        invariant
            from <= i <= chars@.len(),
            word_len(chars@.skip(from as int)) == (i - from) + word_len(chars@.skip(i as int)),
        decreases chars@.len() - i,
    {
        assert(chars@.skip(i as int).skip(1) =~= chars@.skip(i as int + 1));
        i = i + 1;
    }
    i
}

/// A character with an ASCII capital made small.
pub open spec fn ascii_lower(c: char) -> char {
    if 'A' <= c && c <= 'Z' {
        (c as u32 + 32) as char
    } else {
        c
    }
}

/// A text with ASCII capitals made small.
pub open spec fn ascii_lowered(s: Seq<char>) -> Seq<char> {
    s.map_values(|c: char| ascii_lower(c))
}

/// Makes an ASCII capital small.
fn lower_char(c: char) -> (lower: char)
    ensures
        lower == ascii_lower(c),
{
    if 'A' <= c && c <= 'Z' {
        let code: u8 = c as u8;
        (code + 32) as char
    } else {
        c
    }
}

/// Whether a line begins with the name of a header, in any mix of capitals.
pub open spec fn names_header(line: Seq<char>, name: Seq<char>) -> bool {
    line.len() >= name.len() && ascii_lowered(line.take(name.len() as int)) == name
}

/// Tests whether a line begins with the name of a header.
fn begins_with_header(line: &Vec<char>, name: &Vec<char>) -> (begins: bool)
    ensures
        begins == names_header(line@, name@),
{
    if line.len() < name.len() {
        return false;
    }
    let ghost lowered = ascii_lowered(line@.take(name@.len() as int));
    let mut i: usize = 0;
    while i < name.len()
        invariant
            name@.len() <= line@.len(),
            lowered == ascii_lowered(line@.take(name@.len() as int)),
            i <= name@.len(),
            forall|j: int| 0 <= j < i ==> lowered[j] == name@[j],
        decreases name@.len() - i,
    {
        if lower_char(line[i]) != name[i] {
            assert(lowered[i as int] != name@[i as int]);
            return false;
        }
        i = i + 1;
    }
    assert(lowered =~= name@);
    true
}

/// The value of a decimal digit.
pub open spec fn digit_value(c: char) -> nat {
    (c as u32 - '0' as u32) as nat
}

/// Whether a character is a decimal digit.
pub open spec fn is_digit(c: char) -> bool {
    '0' <= c && c <= '9'
}

/// The number that decimal digits stand for.
pub open spec fn number(s: Seq<char>) -> nat
    decreases s.len(),
{
    if s.len() == 0 {
        0
    } else {
        number(s.drop_last()) * 10 + digit_value(s.last())
    }
}

/// Whether a text is one or more decimal digits.
pub open spec fn all_digits(s: Seq<char>) -> bool {
    s.len() > 0 && forall|i: int| 0 <= i < s.len() ==> is_digit(#[trigger] s[i])
}

/// The number that a text stands for: digits, with a plus in front or not, that fit.
pub open spec fn parsed_size(s: Seq<char>) -> Option<nat> {
    let unsigned = if s.len() > 0 && s[0] == '+' {
        s.skip(1)
    } else {
        s
    };
    if all_digits(unsigned) && number(unsigned) <= usize::MAX {
        Some(number(unsigned))
    } else {
        None
    }
}

proof fn lemma_number_grows(s: Seq<char>, n: int)
    requires
        0 <= n <= s.len(),
    ensures
        number(s.take(n)) <= number(s),
    decreases s.len(),
{
    if n == s.len() {
        assert(s.take(n) =~= s);
    } else {
        assert(s.drop_last().take(n) =~= s.take(n));
        lemma_number_grows(s.drop_last(), n);
    }
}

/// Reads a number.
pub fn parse_size(s: &str) -> (size: Option<usize>)
    ensures
        match size {
            Some(value) => parsed_size(s@) == Some(value as nat),
            None => parsed_size(s@) is None,
        },
{
    let chars: Vec<char> = text::to_chars(s);
    let start: usize = if chars.len() > 0 && chars[0] == '+' {
        1
    } else {
        0
    };
    let ghost unsigned = chars@.skip(start as int);
    assert(start == 0 ==> unsigned =~= s@);
    if start == chars.len() {
        return None;
    }
    let mut value: usize = 0;
    let mut i: usize = start;
    while i < chars.len()
        invariant
            start <= i <= chars@.len(),
            unsigned == chars@.skip(start as int),
            value == number(unsigned.take(i - start)),
            forall|j: int| 0 <= j < i - start ==> is_digit(#[trigger] unsigned[j]),
            unsigned.len() > 0,
            parsed_size(s@) == (if all_digits(unsigned) && number(unsigned) <= usize::MAX {
                Some(number(unsigned))
            } else {
                None
            }),
        decreases chars@.len() - i,
    {
        let c: char = chars[i];
        proof {
            assert(c == unsigned[i - start]);
            assert(unsigned.take(i - start + 1).drop_last() =~= unsigned.take(i - start));
            lemma_number_grows(unsigned, i - start + 1);
        }
        if !('0' <= c && c <= '9') {
            return None;
        }
        let digit: usize = (c as u32 - 48) as usize;
        if value > (usize::MAX - digit) / 10 {
            return None;
        }
        value = value * 10 + digit;
        i = i + 1;
    }
    assert(unsigned.take(unsigned.len() as int) =~= unsigned);
    Some(value)
}

/// The head of a request.
#[derive(Debug, PartialEq, Eq)]
pub struct RequestHead {
    pub method: String,
    pub path: String,
    pub content_length: usize,
    pub token: Option<String>,
}

/// What the head of a request says.
pub struct HeadView {
    pub method: Seq<char>,
    pub path: Seq<char>,
    pub content_length: usize,
    pub token: Option<Seq<char>>,
}

impl View for RequestHead {
    type V = HeadView;

    open spec fn view(&self) -> HeadView {
        HeadView {
            method: self.method@,
            path: self.path@,
            content_length: self.content_length,
            token: match self.token {
                Some(token) => Some(token@),
                None => None,
            },
        }
    }
}

/// What a request line says.
pub open spec fn head_of(request_line: Seq<char>) -> HeadView {
    HeadView {
        method: first_word(request_line),
        path: first_word(after_word(request_line)),
        content_length: 0,
        token: None,
    }
}

/// Whether a line ends the head.
pub open spec fn ends_head(line: Seq<char>) -> bool {
    line == "\r\n"@ || line.len() == 0
}

/// The head after one more line. A length that cannot be read counts as zero, and the last of
/// several headers of one name counts.
pub open spec fn with_header(head: HeadView, line: Seq<char>) -> HeadView {
    if names_header(line, "content-length:"@) {
        HeadView {
            content_length: match parsed_size(text::trimmed(ascii_lowered(line.skip("content-length:"@.len() as int)))) {
                Some(size) => size as usize,
                None => 0,
            },
            ..head
        }
    } else if names_header(line, "x-devtool-token:"@) {
        HeadView { token: Some(text::trimmed(line.skip("x-devtool-token:"@.len() as int))), ..head }
    } else {
        head
    }
}

impl RequestHead {
    /// Reads the request line.
    pub fn new(request_line: &str) -> (head: Self)
        ensures
            head@ == head_of(request_line@),
    {
        let chars: Vec<char> = text::to_chars(request_line);
        assert(chars@.skip(0) =~= chars@);
        let method_start: usize = text::white_end(&chars, 0);
        let method_end: usize = word_end(&chars, method_start);
        let path_start: usize = text::white_end(&chars, method_end);
        let path_end: usize = word_end(&chars, path_start);
        let method: String = text::copy_range(&chars, method_start, method_end);
        let path: String = text::copy_range(&chars, path_start, path_end);
        proof {
            assert(method@ =~= first_word(chars@));
            assert(after_word(chars@) =~= chars@.skip(method_end as int));
            assert(path@ =~= first_word(after_word(chars@)));
        }
        RequestHead { method, path, content_length: 0, token: None }
    }

    /// Reads one more line, or nothing where no line could be read. Tells whether another follows.
    pub fn add_line(&mut self, line: Option<&str>) -> (more: bool)
        ensures
            more == (line is Some && !ends_head(line->0@)),
            final(self)@ == (if line is Some && !ends_head(line->0@) {
                with_header(old(self)@, line->0@)
            } else {
                old(self)@
            }),
    {
        let line: &str = match line {
            Some(line) => line,
            None => {
                return false;
            },
        };
        let chars: Vec<char> = text::to_chars(line);
        if chars.len() == 0 || text::same_text(line, "\r\n") {
            return false;
        }
        let length_name: Vec<char> = text::to_chars("content-length:");
        let token_name: Vec<char> = text::to_chars("x-devtool-token:");
        if begins_with_header(&chars, &length_name) {
            let mut lowered: Vec<char> = Vec::new();
            let mut i: usize = 0;
            while i < chars.len()
                invariant
                    i <= chars@.len(),
                    lowered@ == ascii_lowered(chars@).take(i as int),
                decreases chars@.len() - i,
            {
                lowered.push(lower_char(chars[i]));
                i = i + 1;
                assert(lowered@ =~= ascii_lowered(chars@).take(i as int));
            }
            proof {
                assert(lowered@ =~= ascii_lowered(chars@));
                assert(lowered@.skip(length_name@.len() as int) =~= ascii_lowered(
                    chars@.skip(length_name@.len() as int),
                ));
            }
            let rest: String = text::trim_from(&lowered, length_name.len());
            self.content_length = match parse_size(rest.as_str()) {
                Some(size) => size,
                None => 0,
            };
        } else if begins_with_header(&chars, &token_name) {
            self.token = Some(text::trim_from(&chars, token_name.len()));
        }
        true
    }

    /// Tests whether a request may be served: always under the path for signs of life, and else
    /// with the token, if one is in force.
    pub fn is_authorized(&self, expected: Option<&str>) -> (authorized: bool)
        ensures
            authorized == authorized_by(
                self@,
                match expected {
                    Some(token) => Some(token@),
                    None => None,
                },
            ),
    {
        if text::same_text(self.path.as_str(), "/ping") {
            return true;
        }
        match expected {
            None => true,
            Some(expected) => match &self.token {
                Some(token) => text::same_text(token.as_str(), expected),
                None => false,
            },
        }
    }
}

/// Whether a request may be served.
pub open spec fn authorized_by(head: HeadView, expected: Option<Seq<char>>) -> bool {
    head.path == "/ping"@ || expected is None || head.token == expected
}

/// The status of a response.
#[derive(Clone, Copy, Debug, PartialEq, Eq, Structural)]
pub enum Status {
    Success,
    BadRequest,
    Unauthorized,
    NotFound,
}

impl Status {
    /// The code and phrase of a status.
    pub open spec fn phrase(self) -> Seq<char> {
        match self {
            Status::Success => "200 OK"@,
            Status::BadRequest => "400 Bad Request"@,
            Status::Unauthorized => "401 Unauthorized"@,
            Status::NotFound => "404 Not Found"@,
        }
    }

    /// The code and phrase of a status.
    pub fn as_str(&self) -> (phrase: &'static str)
        ensures
            phrase@ == self.phrase(),
    {
        match self {
            Status::Success => "200 OK",
            Status::BadRequest => "400 Bad Request",
            Status::Unauthorized => "401 Unauthorized",
            Status::NotFound => "404 Not Found",
        }
    }
}

/// A response as it is sent: the head with the length of the body in bytes, and the body.
pub open spec fn framed(status: Status, body: Seq<char>) -> Seq<char> {
    "HTTP/1.1 "@ + status.phrase() + "\r\nContent-Type: application/json\r\nContent-Length: "@
        + text::decimal(utf16::utf8_units(body)) + "\r\nConnection: close\r\n\r\n"@ + body
}

/// Frames a response.
pub fn frame_response(status: Status, body: &str) -> (response: String)
    ensures
        response@ == framed(status, body@),
{
    let mut response: String = String::new();
    response.append("HTTP/1.1 ");
    response.append(status.as_str());
    response.append("\r\nContent-Type: application/json\r\nContent-Length: ");
    let length: usize = utf16::byte_len(body);
    text::push_decimal(&mut response, length as u64);
    response.append("\r\nConnection: close\r\n\r\n");
    response.append(body);
    assert(response@ =~= framed(status, body@));
    response
}

/// A request without the token in force is refused under every path but the one for signs of life.
pub proof fn strangers_are_refused(head: HeadView, expected: Seq<char>)
    requires
        head.token != Some(expected),
    ensures
        authorized_by(head, Some(expected)) <==> head.path == "/ping"@,
{
}

/// The name of a header is read in any mix of capitals: lines that differ in ASCII capitals alone
/// give the same length.
pub proof fn header_names_ignore_capitals(head: HeadView, one: Seq<char>, other: Seq<char>)
    requires
        ascii_lowered(one) == ascii_lowered(other),
    ensures
        with_header(head, one).content_length == with_header(head, other).content_length,
        with_header(head, one).token is Some <==> with_header(head, other).token is Some,
{
    assert(one.len() == ascii_lowered(one).len());
    assert(other.len() == ascii_lowered(other).len());
    lemma_names_header_lowered(one, other, "content-length:"@);
    lemma_names_header_lowered(one, other, "x-devtool-token:"@);
    let n = "content-length:"@.len() as int;
    if one.len() >= n {
        assert(ascii_lowered(one.skip(n)) =~= ascii_lowered(one).skip(n));
        assert(ascii_lowered(other.skip(n)) =~= ascii_lowered(other).skip(n));
    }
}

proof fn lemma_names_header_lowered(one: Seq<char>, other: Seq<char>, name: Seq<char>)
    requires
        ascii_lowered(one) == ascii_lowered(other),
    ensures
        names_header(one, name) == names_header(other, name),
{
    assert(one.len() == ascii_lowered(one).len());
    assert(other.len() == ascii_lowered(other).len());
    let n = name.len() as int;
    if one.len() >= n {
        assert(ascii_lowered(one.take(n)) =~= ascii_lowered(one).take(n));
        assert(ascii_lowered(other.take(n)) =~= ascii_lowered(other).take(n));
    }
}

/// A header changes neither method nor path.
pub proof fn headers_keep_the_request_line(head: HeadView, line: Seq<char>)
    ensures
        with_header(head, line).method == head.method,
        with_header(head, line).path == head.path,
{
}

/// Whether a text holds no white space.
pub open spec fn is_solid(s: Seq<char>) -> bool {
    forall|i: int| 0 <= i < s.len() ==> !text::is_white(#[trigger] s[i])
}

/// A request that names the token in force is served, under any path and in any mix of capitals.
pub proof fn holders_are_served(head: HeadView, name: Seq<char>, token: Seq<char>)
    requires
        ascii_lowered(name) == "x-devtool-token:"@,
        token.len() > 0,
        is_solid(token),
    ensures
        ({
            let line = name + seq![' '] + token + seq!['\r', '\n'];
            with_header(head, line) == (HeadView { token: Some(token), ..head }) && authorized_by(
                with_header(head, line),
                Some(token),
            )
        }),
{
    reveal_strlit("x-devtool-token:");
    reveal_strlit("content-length:");
    let line = name + seq![' '] + token + seq!['\r', '\n'];
    let n = name.len() as int;
    assert(ascii_lowered(name).len() == n);
    assert(line.take(n) =~= name);
    let other = "content-length:"@.len() as int;
    assert(ascii_lowered(line.take(other))[0] == ascii_lowered(name)[0]);
    assert(!names_header(line, "content-length:"@));
    let rest = line.skip(n);
    assert(rest =~= seq![' '] + token + seq!['\r', '\n']);
    let behind = rest.skip(1);
    assert(behind =~= token + seq!['\r', '\n']);
    assert(behind[0] == token[0]);
    assert(text::skip_white(behind) == behind);
    assert(text::skip_white(rest) == behind);
    assert(behind.last() == '\n');
    let shorter = behind.drop_last();
    assert(shorter.last() == '\r');
    assert(shorter.drop_last() =~= token);
    assert(token.last() == token[token.len() - 1]);
    assert(text::drop_white(token) == token);
    assert(text::drop_white(shorter) == token);
    assert(text::drop_white(behind) == token);
}

proof fn lemma_word_len(word: Seq<char>, rest: Seq<char>)
    requires
        is_solid(word),
        rest.len() > 0,
        text::is_white(rest[0]),
    ensures
        word_len(word + rest) == word.len(),
    decreases word.len(),
{
    let whole = word + rest;
    if word.len() == 0 {
        assert(whole =~= rest);
    } else {
        assert(whole[0] == word[0]);
        assert(whole.skip(1) =~= word.skip(1) + rest);
        assert forall|i: int| 0 <= i < word.skip(1).len() implies !text::is_white(
            #[trigger] word.skip(1)[i],
        ) by {
            assert(word.skip(1)[i] == word[i + 1]);
        }
        lemma_word_len(word.skip(1), rest);
    }
}

/// The method and path of a request line are read back, whatever follows them.
pub proof fn request_lines_are_read_back(method: Seq<char>, path: Seq<char>, version: Seq<char>)
    requires
        method.len() > 0,
        path.len() > 0,
        is_solid(method),
        is_solid(path),
    ensures
        ({
            let head = head_of(method + seq![' '] + path + seq![' '] + version);
            head.method == method && head.path == path
        }),
{
    let line = method + seq![' '] + path + seq![' '] + version;
    let behind_method = seq![' '] + path + seq![' '] + version;
    assert(line =~= method + behind_method);
    assert(line[0] == method[0]);
    assert(text::skip_white(line) == line);
    lemma_word_len(method, behind_method);
    assert(line.take(method.len() as int) =~= method);
    assert(line.skip(method.len() as int) =~= behind_method);
    let behind_path = seq![' '] + version;
    let from_path = behind_method.skip(1);
    assert(from_path =~= path + behind_path);
    assert(from_path[0] == path[0]);
    assert(text::skip_white(from_path) == from_path);
    assert(text::skip_white(behind_method) == from_path);
    lemma_word_len(path, behind_path);
    assert(from_path.take(path.len() as int) =~= path);
}

/// Only the twenty-six capitals are made small, each to the letter thirty-two places behind it.
pub proof fn capitals_alone_are_made_small(c: char)
    ensures
        0x41 <= c as u32 <= 0x5a ==> ascii_lower(c) as u32 == c as u32 + 32,
        (c as u32) < 0x41 || c as u32 > 0x5a ==> ascii_lower(c) == c,
{
}

/// A number is read digit by digit, each making what was read before ten times as much. Whatever is no
/// digit spoils it, but for one plus in front, and so does a number too large to count with.
pub proof fn numbers_are_read_digit_by_digit(s: Seq<char>, c: char)
    requires
        s.len() == 0 || s[0] != '+',
        c != '+' || s.len() > 0,
    ensures
        c as u32 >= 48 && c as u32 <= 57 && s.len() == 0 ==> parsed_size(s.push(c)) == Some(
            (c as u32 - 48) as nat,
        ),
        c as u32 >= 48 && c as u32 <= 57 && parsed_size(s) is Some && parsed_size(s)->0 * 10 + (
        c as u32 - 48) <= usize::MAX ==> parsed_size(s.push(c)) == Some(
            (parsed_size(s)->0 * 10 + (c as u32 - 48)) as nat,
        ),
        (c as u32) < 48 || c as u32 > 57 ==> parsed_size(s.push(c)) is None,
        s.len() > 0 && parsed_size(s) is None ==> parsed_size(s.push(c)) is None,
        parsed_size(Seq::empty()) is None,
        parsed_size(seq!['+'] + s) == parsed_size(s),
{
    let longer = s.push(c);
    assert(longer.drop_last() =~= s);
    assert(longer[longer.len() - 1] == c);
    if s.len() > 0 {
        assert(longer[0] == s[0]);
    }
    assert((seq!['+'] + s).skip(1) =~= s);
    if all_digits(longer) {
        assert forall|i: int| 0 <= i < s.len() implies is_digit(#[trigger] s[i]) by {
            assert(longer[i] == s[i]);
        }
    }
    if s.len() == 0 {
        assert(number(s) == 0);
    }
    if is_digit(c) && (s.len() == 0 || all_digits(s)) {
        assert forall|i: int| 0 <= i < longer.len() implies is_digit(#[trigger] longer[i]) by {
            if i < s.len() {
                assert(longer[i] == s[i]);
            }
        }
    }
}

/// A number written in decimal is read back as that number.
pub proof fn decimals_are_read_back(value: nat)
    ensures
        number(text::decimal(value)) == value,
        value <= usize::MAX ==> parsed_size(text::decimal(value)) == Some(value),
{
    lemma_decimal(value);
}

proof fn lemma_decimal(value: nat)
    ensures
        number(text::decimal(value)) == value,
        all_digits(text::decimal(value)),
        text::decimal(value)[0] != '+',
    decreases value,
{
    let whole = text::decimal(value);
    if value < 10 {
        assert(whole =~= seq![text::digit(value)]);
        assert(whole.drop_last() =~= Seq::empty());
        assert(number(whole.drop_last()) == 0);
    } else {
        lemma_decimal(value / 10);
        let rest = text::decimal(value / 10);
        assert(whole == rest.push(text::digit(value % 10)));
        assert(whole.drop_last() =~= rest);
        assert forall|i: int| 0 <= i < whole.len() implies is_digit(#[trigger] whole[i]) by {
            if i < rest.len() {
                assert(whole[i] == rest[i]);
            }
        }
        assert(whole[0] == rest[0]);
    }
}

/// The length of the body is taken from its header, in any mix of capitals and with white space
/// around the digits or not. One that is no number counts as none.
pub proof fn body_lengths_are_taken_from_their_header(
    head: HeadView,
    name: Seq<char>,
    value: Seq<char>,
)
    requires
        ascii_lowered(name) == "content-length:"@,
    ensures
        ({
            let read = with_header(head, name + value);
            let wanted = parsed_size(text::trimmed(ascii_lowered(value)));
            &&& read.method == head.method
            &&& read.path == head.path
            &&& read.token == head.token
            &&& wanted matches Some(size) ==> read.content_length == size
            &&& wanted is None ==> read.content_length == 0
        }),
{
    let line = name + value;
    let n = "content-length:"@.len() as int;
    assert(ascii_lowered(name).len() == name.len());
    assert(line.take(n) =~= name);
    assert(line.skip(n) =~= value);
}

/// Lines that name neither header say nothing.
pub proof fn other_headers_say_nothing(head: HeadView, line: Seq<char>)
    requires
        !names_header(line, "content-length:"@),
        !names_header(line, "x-devtool-token:"@),
    ensures
        with_header(head, line) == head,
{
}

/// A line names a header where its first characters, made small, are the name.
pub proof fn headers_are_named_in_front(line: Seq<char>, name: Seq<char>)
    ensures
        names_header(line, name) <==> line.len() >= name.len() && forall|i: int|
            0 <= i < name.len() ==> ascii_lower(line[i]) == #[trigger] name[i],
{
    if line.len() >= name.len() {
        let front = ascii_lowered(line.take(name.len() as int));
        if names_header(line, name) {
            assert forall|i: int| 0 <= i < name.len() implies ascii_lower(line[i])
                == #[trigger] name[i] by {
                assert(front[i] == ascii_lower(line[i]));
            }
        }
        if forall|i: int| 0 <= i < name.len() ==> ascii_lower(line[i]) == #[trigger] name[i] {
            assert(front =~= name);
        }
    }
}

/// A head ends with an empty line, with its line break or without.
pub proof fn heads_end_with_an_empty_line(line: Seq<char>)
    ensures
        ends_head(line) <==> line.len() == 0 || line.len() == 2 && line[0] == '\r' && line[1] == '\n',
{
    reveal_strlit("\r\n");
    if line.len() == 2 && line[0] == '\r' && line[1] == '\n' {
        assert(line =~= "\r\n"@);
    }
}

/// Where no token is in force everybody is served, and where one is, whoever names it.
pub proof fn tokens_open_every_path(head: HeadView, token: Seq<char>)
    ensures
        authorized_by(head, None),
        head.token == Some(token) ==> authorized_by(head, Some(token)),
        head.token is None && head.path != "/ping"@ ==> !authorized_by(head, Some(token)),
{
}

/// A response begins with the protocol, the code of its status and its phrase, and ends with the
/// body, in front of which stands its length in bytes.
pub proof fn responses_end_with_their_body(status: Status, body: Seq<char>)
    ensures
        ({
            let response = framed(status, body);
            let phrase = match status {
                Status::Success => "200 OK"@,
                Status::BadRequest => "400 Bad Request"@,
                Status::Unauthorized => "401 Unauthorized"@,
                Status::NotFound => "404 Not Found"@,
            };
            let start = "HTTP/1.1 "@ + phrase;
            let end = "\r\nContent-Length: "@ + text::decimal(utf16::utf8_units(body))
                + "\r\nConnection: close\r\n\r\n"@ + body;
            &&& start.len() + end.len() <= response.len()
            &&& response.subrange(0, start.len() as int) == start
            &&& response.subrange(response.len() - end.len(), response.len() as int) == end
        }),
{
    reveal_strlit("\r\nContent-Length: ");
    reveal_strlit("\r\nContent-Type: application/json\r\nContent-Length: ");
    reveal_strlit("\r\nContent-Type: application/json");
    let response = framed(status, body);
    let length = text::decimal(utf16::utf8_units(body));
    let middle = "\r\nContent-Type: application/json"@;
    let start = "HTTP/1.1 "@ + status.phrase();
    let end = "\r\nContent-Length: "@ + length + "\r\nConnection: close\r\n\r\n"@ + body;
    assert("\r\nContent-Type: application/json\r\nContent-Length: "@ =~= middle
        + "\r\nContent-Length: "@);
    assert(response =~= start + middle + end);
    assert(response.subrange(0, start.len() as int) =~= start);
    assert(response.subrange(response.len() - end.len(), response.len() as int) =~= end);
}

/// The head of a request shows its method, its path, the length of its body and its token as it holds
/// them.
pub proof fn heads_show_what_they_hold(head: RequestHead)
    ensures
        head@.method == head.method@,
        head@.path == head.path@,
        head@.content_length == head.content_length,
        head.token is None <==> head@.token is None,
        head.token matches Some(token) ==> head@.token == Some(token@),
{
}

/// A request line says nothing of a body or a token.
pub proof fn request_lines_name_no_body(request_line: Seq<char>)
    ensures
        head_of(request_line).content_length == 0,
        head_of(request_line).token is None,
{
}

} // verus!
