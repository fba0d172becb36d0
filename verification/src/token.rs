//! The secret that a request to the development server carries.
use crate::http;
use crate::http::HeadView;
use crate::text;
use rand::Rng;
use vstd::prelude::*;
use vstd::string::*;

verus! {

/// A number in hexadecimal with that many places, with zeros in front.
pub open spec fn padded_hex(value: nat, places: nat) -> Seq<char>
    decreases places,
{
    if places == 0 {
        Seq::empty()
    } else {
        padded_hex(value / 16, (places - 1) as nat).push(text::digit(value % 16))
    }
}

/// Writes a number in hexadecimal with that many places.
fn push_padded_hex(out: &mut String, value: u128, places: usize)
    ensures
        final(out)@ == old(out)@ + padded_hex(value as nat, places as nat),
    decreases places,
{
    if places > 0 {
        push_padded_hex(out, value / 16, places - 1);
        text::push_digits(out, value % 16, 16);
    }
    assert(out@ =~= old(out)@ + padded_hex(value as nat, places as nat));
}

/// Writes a number as a token of thirty-two hexadecimal places.
pub fn token_text(value: u128) -> (token: String)
    ensures
        token@ == padded_hex(value as nat, 32),
{
    let mut token: String = String::new();
    push_padded_hex(&mut token, value, 32);
    assert(token@ =~= padded_hex(value as nat, 32));
    token
}

/// Calls `rand::rng` and `Rng::random`. Nothing is claimed of the number.
#[verifier::external_body]
fn random_number() -> (value: u128) {
    rand::rng().random::<u128>()
}

/// Makes a token of a random number.
pub fn generate_token() -> (token: String)
    ensures
        exists|value: u128| #[trigger] padded_hex(value as nat, 32) == token@,
        token@.len() == 32,
{
    let value: u128 = random_number();
    proof {
        lemma_padded_hex_len(value as nat, 32);
    }
    token_text(value)
}

/// Writes the path of the file in which the token for a port is left.
pub fn token_file_path(port: u16) -> (path: String)
    ensures
        path@ == "/tmp/gpui-devtool-token-"@ + text::decimal(port as nat),
{
    let mut path: String = String::new();
    path.append("/tmp/gpui-devtool-token-");
    text::push_decimal(&mut path, port as u64);
    assert(path@ =~= "/tmp/gpui-devtool-token-"@ + text::decimal(port as nat));
    path
}

/// The token in force. The first that is installed stays.
pub struct TokenSlot {
    pub token: Option<String>,
}

impl TokenSlot {
    /// Starts without a token.
    pub fn new() -> (slot: Self)
        ensures
            slot.token is None,
    {
        TokenSlot { token: None }
    }

    /// Puts a token in force, unless one is, and tells whether it did.
    pub fn install(&mut self, token: String) -> (installed: bool)
        ensures
            installed == (old(self).token is None),
            final(self).token == (if installed {
                Some(token)
            } else {
                old(self).token
            }),
    {
        if self.token.is_some() {
            return false;
        }
        self.token = Some(token);
        true
    }
}

proof fn lemma_padded_hex_len(value: nat, places: nat)
    ensures
        padded_hex(value, places).len() == places,
    decreases places,
{
    if places > 0 {
        lemma_padded_hex_len(value / 16, (places - 1) as nat);
    }
}

/// How many numbers fit into that many places.
pub open spec fn capacity(places: nat) -> nat
    decreases places,
{
    if places == 0 {
        1
    } else {
        16 * capacity((places - 1) as nat)
    }
}

proof fn lemma_digit_is_injective(a: nat, b: nat)
    requires
        a < 16,
        b < 16,
        text::digit(a) == text::digit(b),
    ensures
        a == b,
{
}

proof fn lemma_padded_hex_is_injective(a: nat, b: nat, places: nat)
    requires
        a < capacity(places),
        b < capacity(places),
        padded_hex(a, places) == padded_hex(b, places),
    ensures
        a == b,
    decreases places,
{
    if places > 0 {
        let shorter = (places - 1) as nat;
        let one = padded_hex(a / 16, shorter);
        let other = padded_hex(b / 16, shorter);
        assert(one.push(text::digit(a % 16)).drop_last() =~= one);
        assert(other.push(text::digit(b % 16)).drop_last() =~= other);
        assert(one.push(text::digit(a % 16)).last() == other.push(text::digit(b % 16)).last());
        lemma_digit_is_injective(a % 16, b % 16);
        lemma_padded_hex_is_injective(a / 16, b / 16, shorter);
    }
}

/// Different numbers make different tokens.
pub proof fn tokens_tell_numbers_apart(a: u128, b: u128)
    requires
        a != b,
    ensures
        padded_hex(a as nat, 32) != padded_hex(b as nat, 32),
{
    assert(capacity(32) == u128::MAX + 1) by {
        reveal_with_fuel(capacity, 33);
    }
    if padded_hex(a as nat, 32) == padded_hex(b as nat, 32) {
        lemma_padded_hex_is_injective(a as nat, b as nat, 32);
    }
}

proof fn lemma_padded_hex_is_solid(value: nat, places: nat)
    ensures
        http::is_solid(padded_hex(value, places)),
    decreases places,
{
    if places > 0 {
        lemma_padded_hex_is_solid(value / 16, (places - 1) as nat);
        let whole = padded_hex(value, places);
        let rest = padded_hex(value / 16, (places - 1) as nat);
        assert forall|i: int| 0 <= i < whole.len() implies !text::is_white(#[trigger] whole[i]) by {
            if i < rest.len() {
                assert(whole[i] == rest[i]);
            }
        }
    }
}

/// The token that was made of a number opens the server to whoever names it in a header.
pub proof fn tokens_open_the_server(value: u128, head: HeadView, name: Seq<char>)
    requires
        http::ascii_lowered(name) == "x-devtool-token:"@,
    ensures
        ({
            let token = padded_hex(value as nat, 32);
            let line = name + seq![' '] + token + seq!['\r', '\n'];
            http::authorized_by(http::with_header(head, line), Some(token))
        }),
{
    lemma_padded_hex_len(value as nat, 32);
    lemma_padded_hex_is_solid(value as nat, 32);
    http::holders_are_served(head, name, padded_hex(value as nat, 32));
}

/// The last place of a token is the rest of its number by sixteen and the places before it are its
/// sixteenth part, each place from zero to nine or from a small `a` to a small `f`.
pub proof fn places_are_worth_sixteen_times_the_next(value: nat, rest: nat, places: nat)
    requires
        rest < 16,
    ensures
        ({
            let longer = padded_hex(value * 16 + rest, places + 1);
            &&& longer.len() == places + 1
            &&& longer.subrange(0, places as int) == padded_hex(value, places)
            &&& rest < 10 ==> longer[places as int] as u32 == 48 + rest
            &&& rest >= 10 ==> longer[places as int] as u32 == 87 + rest
        }),
{
    let whole = value * 16 + rest;
    assert(whole / 16 == value && whole % 16 == rest);
    lemma_padded_hex_len(value, places);
    let shorter = padded_hex(value, places);
    assert(padded_hex(whole, places + 1) == shorter.push(text::digit(rest)));
    assert(shorter.push(text::digit(rest)).subrange(0, places as int) =~= shorter);
}

/// Zero is a token of zeros, and a token has as many places as it should.
pub proof fn tokens_are_filled_with_zeros(value: nat, places: nat, place: int)
    ensures
        padded_hex(value, places).len() == places,
        0 <= place < places ==> padded_hex(0, places)[place] == '0',
    decreases places,
{
    lemma_padded_hex_len(value, places);
    lemma_padded_hex_len(0, places);
    if places > 0 {
        let shorter = (places - 1) as nat;
        lemma_padded_hex_len(0, shorter);
        tokens_are_filled_with_zeros(value, shorter, place);
        assert(padded_hex(0, places) == padded_hex(0, shorter).push(text::digit(0)));
    }
}

} // verus!
