//! Row identifiers and their text form.
use vstd::prelude::*;

verus! {

/// A 128-bit universally unique identifier, as its big-endian value.
#[derive(Clone, Copy, Debug, PartialEq, Eq, Structural, Hash)]
pub struct Uuid {
    pub value: u128,
}

impl View for Uuid {
    type V = u128;

    open spec fn view(&self) -> u128 {
        self.value
    }
}

/// The lower-case hexadecimal digit of `d`.
pub open spec fn hex_char(d: nat) -> char {
    if d == 0 { '0' } else if d == 1 { '1' } else if d == 2 { '2' } else if d == 3 { '3' }
    else if d == 4 { '4' } else if d == 5 { '5' } else if d == 6 { '6' } else if d == 7 { '7' }
    else if d == 8 { '8' } else if d == 9 { '9' } else if d == 10 { 'a' } else if d == 11 { 'b' }
    else if d == 12 { 'c' } else if d == 13 { 'd' } else if d == 14 { 'e' } else { 'f' }
}

/// The last `n` hexadecimal digits of `v`, most significant first.
pub open spec fn hex_digits(v: nat, n: nat) -> Seq<char>
    decreases n,
{
    if n == 0 {
        Seq::empty()
    } else {
        hex_digits(v / 16, (n - 1) as nat).push(hex_char(v % 16))
    }
}

pub open spec fn pow16(n: nat) -> nat
    decreases n,
{
    if n == 0 {
        1
    } else {
        16 * pow16((n - 1) as nat)
    }
}

/// Groups the 32 digits of an identifier as 8-4-4-4-12, joined by hyphens.
pub open spec fn group_digits(d: Seq<char>) -> Seq<char> {
    d.subrange(0, 8) + seq!['-'] + d.subrange(8, 12) + seq!['-'] + d.subrange(12, 16) + seq!['-']
        + d.subrange(16, 20) + seq!['-'] + d.subrange(20, 32)
}

/// The hyphenated lower-case text of an identifier, such as
/// `601c7161-97df-42ae-b377-3baf21830d8f`.
pub open spec fn hyphenated(u: u128) -> Seq<char> {
    group_digits(hex_digits(u as nat, 32))
}

/// What the identifier parser gives for texts other than the hyphenated
/// lower-case form (other groupings, upper case, or no identifier at all).
pub uninterp spec fn parsed_other_form(s: Seq<char>) -> Option<u128>;

/// The identifier that a text denotes, if any: the hyphenated lower-case
/// form denotes the identifier it was written from.
pub open spec fn parsed_uuid(s: Seq<char>) -> Option<u128> {
    if exists|u: u128| hyphenated(u) == s {
        Some(choose|u: u128| hyphenated(u) == s)
    } else {
        parsed_other_form(s)
    }
}

/// Relies on `uuid::Uuid::parse_str`, which reads the hyphenated form
/// (among others) back into the identifier it was written from.
#[verifier::external_body]
fn parse_uuid_text(s: &str) -> (r: Option<u128>)
    ensures
        forall|u: u128| hyphenated(u) == s@ ==> r == Some(u),
        !(exists|u: u128| hyphenated(u) == s@) ==> r == parsed_other_form(s@),
{
    uuid::Uuid::parse_str(s).ok().map(|u| u.as_u128())
}

/// Relies on `uuid::Uuid::hyphenated`, which writes the 32 lower-case
/// hexadecimal digits of the big-endian value grouped 8-4-4-4-12.
#[verifier::external_body]
fn uuid_to_text(u: u128) -> (r: String)
    ensures
        r@ == hyphenated(u),
{
    uuid::Uuid::from_u128(u).hyphenated().to_string()
}

proof fn lemma_hex_char_injective(a: nat, b: nat)
    requires
        a < 16,
        b < 16,
        hex_char(a) == hex_char(b),
    ensures
        a == b,
{
}

proof fn lemma_hex_digits_injective(a: nat, b: nat, n: nat)
    requires
        a < pow16(n),
        b < pow16(n),
        hex_digits(a, n) == hex_digits(b, n),
    ensures
        a == b,
    decreases n,
{
    if n > 0 {
        let p = pow16((n - 1) as nat);
        let da = hex_digits(a, n);
        let db = hex_digits(b, n);
        assert(da.last() == hex_char(a % 16));
        assert(db.last() == hex_char(b % 16));
        lemma_hex_char_injective(a % 16, b % 16);
        assert(da.drop_last() == hex_digits(a / 16, (n - 1) as nat));
        assert(db.drop_last() == hex_digits(b / 16, (n - 1) as nat));
        assert(a / 16 < p) by (nonlinear_arith)
            requires
                a < 16 * p,
        ;
        assert(b / 16 < p) by (nonlinear_arith)
            requires
                b < 16 * p,
        ;
        lemma_hex_digits_injective(a / 16, b / 16, (n - 1) as nat);
        assert(a == 16 * (a / 16) + a % 16);
        assert(b == 16 * (b / 16) + b % 16);
    }
}

proof fn lemma_hex_digits_len(v: nat, n: nat)
    ensures
        hex_digits(v, n).len() == n,
    decreases n,
{
    if n > 0 {
        lemma_hex_digits_len(v / 16, (n - 1) as nat);
    }
}

/// The hyphenated text determines the identifier.
pub proof fn lemma_hyphenated_injective(a: u128, b: u128)
    requires
        hyphenated(a) == hyphenated(b),
    ensures
        a == b,
{
    let da = hex_digits(a as nat, 32);
    let db = hex_digits(b as nat, 32);
    lemma_hex_digits_len(a as nat, 32);
    lemma_hex_digits_len(b as nat, 32);
    let ha = group_digits(da);
    assert forall|i: int| 0 <= i < 32 implies da[i] == db[i] by {
        let j = if i < 8 { i } else if i < 12 { i + 1 } else if i < 16 { i + 2 } else if i < 20 {
            i + 3
        } else {
            i + 4
        };
        assert(ha[j] == da[i]);
        assert(group_digits(db)[j] == db[i]);
    }
    assert(da =~= db);
    reveal_with_fuel(pow16, 33);
    assert(pow16(32) == 0x1_0000_0000_0000_0000_0000_0000_0000_0000);
    lemma_hex_digits_injective(a as nat, b as nat, 32);
}

/// Reading back the text written for an identifier gives that identifier.
pub proof fn lemma_uuid_text_round_trip(u: u128)
    ensures
        parsed_uuid(hyphenated(u)) == Some(u),
{
    let w = choose|w: u128| hyphenated(w) == hyphenated(u);
    lemma_hyphenated_injective(w, u);
}

impl Uuid {
    pub fn from_u128(value: u128) -> (r: Uuid)
        ensures
            r@ == value,
    {
        Uuid { value }
    }

    pub fn as_u128(&self) -> (r: u128)
        ensures
            r == self@,
    {
        self.value
    }

    /// Reads an identifier from its text.
    pub fn parse_str(s: &str) -> (r: Option<Uuid>)
        ensures
            match parsed_uuid(s@) {
                Some(u) => r == Some(Uuid { value: u }),
                None => r is None,
            },
    {
        let r = parse_uuid_text(s);
        proof {
            if exists|u: u128| hyphenated(u) == s@ {
                let u = choose|u: u128| hyphenated(u) == s@;
                assert(r == Some(u));
            }
        }
        match r {
            Some(value) => Some(Uuid { value }),
            None => None,
        }
    }

    /// The hyphenated lower-case text of the identifier.
    pub fn to_hyphenated(&self) -> (r: String)
        ensures
            r@ == hyphenated(self@),
    {
        uuid_to_text(self.value)
    }
}

} // verus!
