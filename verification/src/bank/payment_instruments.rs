//! Virtual cards, the instruments that payments are made with.

use vstd::prelude::*;
use vstd::string::*;
use vstd::utf8::*;

verus! {

/// Number of digits in a card number.
pub const CARD_NUMBER_LENGTH: usize = 15;

/// Number of leading digits of a card number that name the account.
pub const ACCOUNT_PREFIX_LENGTH: usize = 2;

/// Why a string is no card number.
#[derive(Debug, Clone, Copy, PartialEq, Eq, Structural)]
pub enum CardError {
    /// The string does not take up exactly `CARD_NUMBER_LENGTH` bytes.
    InvalidLength,
    /// The string has the right length, but holds something other than
    /// decimal digits.
    ParseError,
}

/// A decimal digit, `0` to `9`.
pub open spec fn is_digit(c: char) -> bool {
    '0' <= c && c <= '9'
}

/// A card number: exactly fifteen decimal digits.
pub open spec fn is_card_number(s: Seq<char>) -> bool {
    &&& s.len() == CARD_NUMBER_LENGTH
    &&& forall|i: int| 0 <= i < s.len() ==> is_digit(#[trigger] s[i])
}

/// The account that a card number belongs to: its leading digits.
pub open spec fn account_prefix(s: Seq<char>) -> Seq<char> {
    s.subrange(0, ACCOUNT_PREFIX_LENGTH as int)
}

/// What parsing `s` as a card number yields.
pub open spec fn parse_card(s: Seq<char>) -> Result<Seq<char>, CardError> {
    if encode_utf8(s).len() != CARD_NUMBER_LENGTH {
        Err(CardError::InvalidLength)
    } else if !is_card_number(s) {
        Err(CardError::ParseError)
    } else {
        Ok(s)
    }
}

/// Represents a virtual credit card used for payments.
///
/// Card numbers have 15 digits, and the linked account number can be derived
/// from the card number.
///
/// Each time it is used a different card number is generated and provided
/// to merchants for payment.
#[derive(Debug, PartialEq, Eq, PartialOrd, Ord)]
pub struct Card(String);

impl Clone for Card {
    fn clone(&self) -> (r: Self)
        ensures
            r@ == self@,
    {
        proof {
            use_type_invariant(self);
        }
        Card(self.0.clone())
    }
}

impl View for Card {
    type V = Seq<char>;

    closed spec fn view(&self) -> Seq<char> {
        self.0@
    }
}

impl Card {
    #[verifier::type_invariant]
    spec fn well_formed(self) -> bool {
        is_card_number(self.0@)
    }

    /// Accepts `card_number` if and only if it is fifteen decimal digits.
    pub fn try_from(card_number: String) -> (r: Result<Card, CardError>)
        ensures
            match r {
                Ok(card) => parse_card(card_number@) == Ok::<Seq<char>, CardError>(card@),
                Err(e) => parse_card(card_number@) == Err::<Seq<char>, CardError>(e),
            },
    {
        let s = card_number.as_str();
        if s.as_bytes().len() != CARD_NUMBER_LENGTH {
            return Err(CardError::InvalidLength);
        }
        if !s.is_ascii() {
            return Err(CardError::ParseError);
        }
        proof {
            is_ascii_spec_bytes(s);
        }
        let mut i: usize = 0;
        while i < CARD_NUMBER_LENGTH
            invariant
                i <= CARD_NUMBER_LENGTH,
                s@ == card_number@,
                s@.len() == CARD_NUMBER_LENGTH,
                encode_utf8(s@).len() == CARD_NUMBER_LENGTH,
                s.is_ascii(),
                forall|j: int| 0 <= j < i ==> is_digit(#[trigger] s@[j]),
            decreases CARD_NUMBER_LENGTH - i,
        {
            let b = s.get_ascii(i);
            // the bytes of '0' and '9'
            if b < 48 || b > 57 {
                return Err(CardError::ParseError);
            }
            i += 1;
        }
        Ok(Card(card_number))
    }

    /// Returns the account number associated with the given card.
    pub fn account_number(&self) -> (r: &str)
        ensures
            r@ == account_prefix(self@),
            r@.len() == ACCOUNT_PREFIX_LENGTH,
    {
        proof {
            use_type_invariant(self);
        }
        self.0.as_str().substring_ascii(0, ACCOUNT_PREFIX_LENGTH)
    }

    /// Returns the string representation of this card number.
    pub fn card_number(&self) -> (r: &str)
        ensures
            r@ == self@,
            is_card_number(r@),
    {
        proof {
            use_type_invariant(self);
        }
        self.0.as_str()
    }

}

impl From<Card> for String {
    /// Gives up the card for its number.
    fn from(card: Card) -> (r: String)
        ensures
            r@ == card@,
            is_card_number(r@),
    {
        proof {
            use_type_invariant(&card);
        }
        card.0
    }
}

impl vstd::std_specs::convert::FromSpecImpl<Card> for String {
    open spec fn obeys_from_spec() -> bool {
        true
    }

    closed spec fn from_spec(card: Card) -> String {
        card.0
    }
}

} // verus!
