//! The two lookup tables that define JSON syntax for this crate: a map from
//! ASCII bytes to character classes, and a transition matrix from parse
//! state and character class to the next parse state or structural event.
//!
//! Both tables exist twice: as spec functions, which are the authoritative
//! statement of the grammar, and as executable mirrors proved equal to them.

use vstd::prelude::*;

use crate::Error;

verus! {

/// The JSON-meaningful equivalence classes of the 128 ASCII codepoints.
#[derive(Debug, Clone, Copy, PartialEq, Eq, Structural)]
pub enum CharacterType {
    Space,        // space
    Whitespace,   // other whitespace
    BraceOpen,    // {
    BraceClose,   // }
    BracketOpen,  // [
    BracketClose, // ]
    Colon,        // :
    Comma,        // ,
    Quote,        // "
    Backslash,    // \
    Slash,        // /
    Plus,         // +
    Minus,        // -
    Dot,          // .
    Zero,         // 0
    Digit,        // 123456789
    LowA,         // a
    LowB,         // b
    LowC,         // c
    LowD,         // d
    LowE,         // e
    LowF,         // f
    LowL,         // l
    LowN,         // n
    LowR,         // r
    LowS,         // s
    LowT,         // t
    LowU,         // u
    Abcdf,        // ABCDF
    E,            // E
    Other,        // all other characters
    Error,        // error class: never returned outside this module
}

/// The parse states of the automaton: where it currently sits in the JSON
/// grammar.
#[derive(Debug, Clone, Copy, PartialEq, Eq, Structural)]
pub enum Token {
    Begin,      // awaiting the top-level value
    Okay,       // just completed a value or closed a container
    Object,     // just opened {, awaiting a key or }
    Key,        // awaiting a key string after ,
    Colon,      // awaiting : after a key
    Value,      // awaiting a value after :
    Array,      // just opened [, awaiting a value or ]
    String,     // inside a string
    Escape,     // just saw \ inside a string
    U1,         // just saw the u of a \u escape
    U2,         // inside \u, after one hex digit
    U3,         // inside \u, after two hex digits
    U4,         // inside \u, after three hex digits
    Minus,      // just saw the leading - of a number
    Zero,       // just saw a leading 0
    Integer,    // inside the integer part of a number
    Fraction1,  // just saw the . of a number
    Fraction2,  // inside the fraction digits
    Exponent1,  // just saw e or E
    Exponent2,  // just saw the sign of an exponent
    Exponent3,  // inside the exponent digits
    TrueTr,     // saw t
    TrueTru,    // saw tr
    TrueTrue,   // saw tru
    FalseFa,    // saw f
    FalseFal,   // saw fa
    FalseFals,  // saw fal
    FalseFalse, // saw fals
    NullNu,     // saw n
    NullNul,    // saw nu
    NullNull,   // saw nul
}

/// A structural event: a byte that does more than advance the parse state.
#[derive(Debug, Clone, Copy, PartialEq, Eq, Structural)]
pub enum ComplexToken {
    BraceEmptyClose, // } closing an empty object
    BraceClose,      // }
    BracketClose,    // ]
    BraceOpen,       // {
    BracketOpen,     // [
    Quote,           // " closing a string
    Comma,           // ,
    Kolon,           // :
}

/// The outcome of one table lookup.
#[derive(Debug, Clone, Copy, PartialEq, Eq, Structural)]
pub enum Transition {
    Simple(Token),
    Complex(ComplexToken),
    Error, // no rule: the byte is invalid at this state
}

/// The character class of an ASCII byte. Control characters other than tab,
/// line feed and carriage return have no class and map to the error class.
pub open spec fn char_class(c: u8) -> CharacterType {
    if c == 9 || c == 10 || c == 13 {
        CharacterType::Whitespace
    } else if c < 32 {
        CharacterType::Error
    } else if c == 32 {
        CharacterType::Space
    } else if c == 34 {
        CharacterType::Quote
    } else if c == 43 {
        CharacterType::Plus
    } else if c == 44 {
        CharacterType::Comma
    } else if c == 45 {
        CharacterType::Minus
    } else if c == 46 {
        CharacterType::Dot
    } else if c == 47 {
        CharacterType::Slash
    } else if c == 48 {
        CharacterType::Zero
    } else if 49 <= c && c <= 57 {
        CharacterType::Digit
    } else if c == 58 {
        CharacterType::Colon
    } else if (65 <= c && c <= 68) || c == 70 {
        CharacterType::Abcdf
    } else if c == 69 {
        CharacterType::E
    } else if c == 91 {
        CharacterType::BracketOpen
    } else if c == 92 {
        CharacterType::Backslash
    } else if c == 93 {
        CharacterType::BracketClose
    } else if c == 97 {
        CharacterType::LowA
    } else if c == 98 {
        CharacterType::LowB
    } else if c == 99 {
        CharacterType::LowC
    } else if c == 100 {
        CharacterType::LowD
    } else if c == 101 {
        CharacterType::LowE
    } else if c == 102 {
        CharacterType::LowF
    } else if c == 108 {
        CharacterType::LowL
    } else if c == 110 {
        CharacterType::LowN
    } else if c == 114 {
        CharacterType::LowR
    } else if c == 115 {
        CharacterType::LowS
    } else if c == 116 {
        CharacterType::LowT
    } else if c == 117 {
        CharacterType::LowU
    } else if c == 123 {
        CharacterType::BraceOpen
    } else if c == 125 {
        CharacterType::BraceClose
    } else {
        CharacterType::Other
    }
}

/// The transition matrix: the rule for one parse state and one character
/// class. `Transition::Error` stands where no rule exists.
pub open spec fn spec_transition(from: Token, ty: CharacterType) -> Transition {
    match from {
        Token::Begin => match ty {
            CharacterType::Space | CharacterType::Whitespace => Transition::Simple(Token::Begin),
            CharacterType::BraceOpen => Transition::Complex(ComplexToken::BraceOpen),
            CharacterType::BracketOpen => Transition::Complex(ComplexToken::BracketOpen),
            _ => Transition::Error,
        },
        Token::Okay => match ty {
            CharacterType::Space | CharacterType::Whitespace => Transition::Simple(Token::Okay),
            CharacterType::BraceClose => Transition::Complex(ComplexToken::BraceClose),
            CharacterType::BracketClose => Transition::Complex(ComplexToken::BracketClose),
            CharacterType::Comma => Transition::Complex(ComplexToken::Comma),
            _ => Transition::Error,
        },
        Token::Object => match ty {
            CharacterType::Space | CharacterType::Whitespace => Transition::Simple(Token::Object),
            CharacterType::BraceClose => Transition::Complex(ComplexToken::BraceEmptyClose),
            CharacterType::Quote => Transition::Simple(Token::String),
            _ => Transition::Error,
        },
        Token::Key => match ty {
            CharacterType::Space | CharacterType::Whitespace => Transition::Simple(Token::Key),
            CharacterType::Quote => Transition::Simple(Token::String),
            _ => Transition::Error,
        },
        Token::Colon => match ty {
            CharacterType::Space | CharacterType::Whitespace => Transition::Simple(Token::Colon),
            CharacterType::Colon => Transition::Complex(ComplexToken::Kolon),
            _ => Transition::Error,
        },
        Token::Value => match ty {
            CharacterType::Space | CharacterType::Whitespace => Transition::Simple(Token::Value),
            CharacterType::BraceOpen => Transition::Complex(ComplexToken::BraceOpen),
            CharacterType::BracketOpen => Transition::Complex(ComplexToken::BracketOpen),
            CharacterType::Quote => Transition::Simple(Token::String),
            CharacterType::Minus => Transition::Simple(Token::Minus),
            CharacterType::Zero => Transition::Simple(Token::Zero),
            CharacterType::Digit => Transition::Simple(Token::Integer),
            CharacterType::LowF => Transition::Simple(Token::FalseFa),
            CharacterType::LowN => Transition::Simple(Token::NullNu),
            CharacterType::LowT => Transition::Simple(Token::TrueTr),
            _ => Transition::Error,
        },
        Token::Array => match ty {
            CharacterType::Space | CharacterType::Whitespace => Transition::Simple(Token::Array),
            CharacterType::BraceOpen => Transition::Complex(ComplexToken::BraceOpen),
            CharacterType::BracketOpen => Transition::Complex(ComplexToken::BracketOpen),
            CharacterType::BracketClose => Transition::Complex(ComplexToken::BracketClose),
            CharacterType::Quote => Transition::Simple(Token::String),
            CharacterType::Minus => Transition::Simple(Token::Minus),
            CharacterType::Zero => Transition::Simple(Token::Zero),
            CharacterType::Digit => Transition::Simple(Token::Integer),
            CharacterType::LowF => Transition::Simple(Token::FalseFa),
            CharacterType::LowN => Transition::Simple(Token::NullNu),
            CharacterType::LowT => Transition::Simple(Token::TrueTr),
            _ => Transition::Error,
        },
        Token::String => match ty {
            CharacterType::Whitespace => Transition::Error,
            CharacterType::Quote => Transition::Complex(ComplexToken::Quote),
            CharacterType::Backslash => Transition::Simple(Token::Escape),
            _ => Transition::Simple(Token::String),
        },
        Token::Escape => match ty {
            CharacterType::Quote
            | CharacterType::Backslash
            | CharacterType::Slash
            | CharacterType::LowB
            | CharacterType::LowF
            | CharacterType::LowN
            | CharacterType::LowR
            | CharacterType::LowT => Transition::Simple(Token::String),
            CharacterType::LowU => Transition::Simple(Token::U1),
            _ => Transition::Error,
        },
        Token::U1 => if is_hex_class(ty) {
            Transition::Simple(Token::U2)
        } else {
            Transition::Error
        },
        Token::U2 => if is_hex_class(ty) {
            Transition::Simple(Token::U3)
        } else {
            Transition::Error
        },
        Token::U3 => if is_hex_class(ty) {
            Transition::Simple(Token::U4)
        } else {
            Transition::Error
        },
        Token::U4 => if is_hex_class(ty) {
            Transition::Simple(Token::String)
        } else {
            Transition::Error
        },
        Token::Minus => match ty {
            CharacterType::Zero => Transition::Simple(Token::Zero),
            CharacterType::Digit => Transition::Simple(Token::Integer),
            _ => Transition::Error,
        },
        Token::Zero => match ty {
            CharacterType::Space | CharacterType::Whitespace => Transition::Simple(Token::Okay),
            CharacterType::BraceClose => Transition::Complex(ComplexToken::BraceClose),
            CharacterType::BracketClose => Transition::Complex(ComplexToken::BracketClose),
            CharacterType::Comma => Transition::Complex(ComplexToken::Comma),
            CharacterType::Dot => Transition::Simple(Token::Fraction1),
            CharacterType::LowE | CharacterType::E => Transition::Simple(Token::Exponent1),
            _ => Transition::Error,
        },
        Token::Integer => match ty {
            CharacterType::Space | CharacterType::Whitespace => Transition::Simple(Token::Okay),
            CharacterType::BraceClose => Transition::Complex(ComplexToken::BraceClose),
            CharacterType::BracketClose => Transition::Complex(ComplexToken::BracketClose),
            CharacterType::Comma => Transition::Complex(ComplexToken::Comma),
            CharacterType::Dot => Transition::Simple(Token::Fraction1),
            CharacterType::Zero | CharacterType::Digit => Transition::Simple(Token::Integer),
            CharacterType::LowE | CharacterType::E => Transition::Simple(Token::Exponent1),
            _ => Transition::Error,
        },
        Token::Fraction1 => match ty {
            CharacterType::Zero | CharacterType::Digit => Transition::Simple(Token::Fraction2),
            _ => Transition::Error,
        },
        Token::Fraction2 => match ty {
            CharacterType::Space | CharacterType::Whitespace => Transition::Simple(Token::Okay),
            CharacterType::BraceClose => Transition::Complex(ComplexToken::BraceClose),
            CharacterType::BracketClose => Transition::Complex(ComplexToken::BracketClose),
            CharacterType::Comma => Transition::Complex(ComplexToken::Comma),
            CharacterType::Zero | CharacterType::Digit => Transition::Simple(Token::Fraction2),
            CharacterType::LowE | CharacterType::E => Transition::Simple(Token::Exponent1),
            _ => Transition::Error,
        },
        Token::Exponent1 => match ty {
            CharacterType::Plus | CharacterType::Minus => Transition::Simple(Token::Exponent2),
            CharacterType::Zero | CharacterType::Digit => Transition::Simple(Token::Exponent3),
            _ => Transition::Error,
        },
        Token::Exponent2 => match ty {
            CharacterType::Zero | CharacterType::Digit => Transition::Simple(Token::Exponent3),
            _ => Transition::Error,
        },
        Token::Exponent3 => match ty {
            CharacterType::Space | CharacterType::Whitespace => Transition::Simple(Token::Okay),
            CharacterType::BraceClose => Transition::Complex(ComplexToken::BraceClose),
            CharacterType::BracketClose => Transition::Complex(ComplexToken::BracketClose),
            CharacterType::Comma => Transition::Complex(ComplexToken::Comma),
            CharacterType::Zero | CharacterType::Digit => Transition::Simple(Token::Exponent3),
            _ => Transition::Error,
        },
        Token::TrueTr => match ty {
            CharacterType::LowR => Transition::Simple(Token::TrueTru),
            _ => Transition::Error,
        },
        Token::TrueTru => match ty {
            CharacterType::LowU => Transition::Simple(Token::TrueTrue),
            _ => Transition::Error,
        },
        Token::TrueTrue => match ty {
            CharacterType::LowE => Transition::Simple(Token::Okay),
            _ => Transition::Error,
        },
        Token::FalseFa => match ty {
            CharacterType::LowA => Transition::Simple(Token::FalseFal),
            _ => Transition::Error,
        },
        Token::FalseFal => match ty {
            CharacterType::LowL => Transition::Simple(Token::FalseFals),
            _ => Transition::Error,
        },
        Token::FalseFals => match ty {
            CharacterType::LowS => Transition::Simple(Token::FalseFalse),
            _ => Transition::Error,
        },
        Token::FalseFalse => match ty {
            CharacterType::LowE => Transition::Simple(Token::Okay),
            _ => Transition::Error,
        },
        Token::NullNu => match ty {
            CharacterType::LowU => Transition::Simple(Token::NullNul),
            _ => Transition::Error,
        },
        Token::NullNul => match ty {
            CharacterType::LowL => Transition::Simple(Token::NullNull),
            _ => Transition::Error,
        },
        Token::NullNull => match ty {
            CharacterType::LowL => Transition::Simple(Token::Okay),
            _ => Transition::Error,
        },
    }
}

/// The character classes that continue a `\u` escape: hexadecimal digits.
pub open spec fn is_hex_class(ty: CharacterType) -> bool {
    match ty {
        CharacterType::Zero
        | CharacterType::Digit
        | CharacterType::LowA
        | CharacterType::LowB
        | CharacterType::LowC
        | CharacterType::LowD
        | CharacterType::LowE
        | CharacterType::LowF
        | CharacterType::Abcdf
        | CharacterType::E => true,
        _ => false,
    }
}

/// Executable mirror of [`char_class`].
fn class_lookup(c: u8) -> (r: CharacterType)
    ensures
        r == char_class(c),
{
    if c == 9 || c == 10 || c == 13 {
        CharacterType::Whitespace
    } else if c < 32 {
        CharacterType::Error
    } else if c == 32 {
        CharacterType::Space
    } else if c == 34 {
        CharacterType::Quote
    } else if c == 43 {
        CharacterType::Plus
    } else if c == 44 {
        CharacterType::Comma
    } else if c == 45 {
        CharacterType::Minus
    } else if c == 46 {
        CharacterType::Dot
    } else if c == 47 {
        CharacterType::Slash
    } else if c == 48 {
        CharacterType::Zero
    } else if 49 <= c && c <= 57 {
        CharacterType::Digit
    } else if (65 <= c && c <= 68) || c == 70 {
        CharacterType::Abcdf
    } else if c == 58 {
        CharacterType::Colon
    } else if c == 69 {
        CharacterType::E
    } else if c == 91 {
        CharacterType::BracketOpen
    } else if c == 92 {
        CharacterType::Backslash
    } else if c == 93 {
        CharacterType::BracketClose
    } else if c == 97 {
        CharacterType::LowA
    } else if c == 98 {
        CharacterType::LowB
    } else if c == 99 {
        CharacterType::LowC
    } else if c == 100 {
        CharacterType::LowD
    } else if c == 101 {
        CharacterType::LowE
    } else if c == 102 {
        CharacterType::LowF
    } else if c == 108 {
        CharacterType::LowL
    } else if c == 110 {
        CharacterType::LowN
    } else if c == 114 {
        CharacterType::LowR
    } else if c == 115 {
        CharacterType::LowS
    } else if c == 116 {
        CharacterType::LowT
    } else if c == 117 {
        CharacterType::LowU
    } else if c == 123 {
        CharacterType::BraceOpen
    } else if c == 125 {
        CharacterType::BraceClose
    } else {
        CharacterType::Other
    }
}

/// The character class of `character`, or `Error::Invalid` for the control
/// characters that JSON forbids.
pub fn character_type(character: u8) -> (r: Result<CharacterType, Error>)
    requires
        character < 128,
    ensures
        (match r {
            Ok(c) => c == char_class(character) && c != CharacterType::Error,
            Err(e) => e == Error::Invalid && char_class(character) == CharacterType::Error,
        }),
{
    let c = class_lookup(character);
    if c == CharacterType::Error {
        Err(Error::Invalid)
    } else {
        Ok(c)
    }
}

/// The rule of the transition matrix for `from` and `ty`, or
/// `Error::Invalid` where the matrix has no rule.
pub fn transition(from: Token, ty: CharacterType) -> (r: Result<Transition, Error>)
    requires
        ty != CharacterType::Error,
    ensures
        (match spec_transition(from, ty) {
            Transition::Error => r == Err::<Transition, Error>(Error::Invalid),
            t => r == Ok::<Transition, Error>(t),
        }),
{
    let t = transition_lookup(from, ty);
    if t == Transition::Error {
        Err(Error::Invalid)
    } else {
        Ok(t)
    }
}

/// Executable mirror of [`spec_transition`].
#[verifier::rlimit(30)]
fn transition_lookup(from: Token, ty: CharacterType) -> (r: Transition)
    ensures
        r == spec_transition(from, ty),
{
    match from {
        Token::Begin => match ty {
            CharacterType::Space | CharacterType::Whitespace => Transition::Simple(Token::Begin),
            CharacterType::BraceOpen => Transition::Complex(ComplexToken::BraceOpen),
            CharacterType::BracketOpen => Transition::Complex(ComplexToken::BracketOpen),
            _ => Transition::Error,
        },
        Token::Okay => match ty {
            CharacterType::Space | CharacterType::Whitespace => Transition::Simple(Token::Okay),
            CharacterType::BraceClose => Transition::Complex(ComplexToken::BraceClose),
            CharacterType::BracketClose => Transition::Complex(ComplexToken::BracketClose),
            CharacterType::Comma => Transition::Complex(ComplexToken::Comma),
            _ => Transition::Error,
        },
        Token::Object => match ty {
            CharacterType::Space | CharacterType::Whitespace => Transition::Simple(Token::Object),
            CharacterType::BraceClose => Transition::Complex(ComplexToken::BraceEmptyClose),
            CharacterType::Quote => Transition::Simple(Token::String),
            _ => Transition::Error,
        },
        Token::Key => match ty {
            CharacterType::Space | CharacterType::Whitespace => Transition::Simple(Token::Key),
            CharacterType::Quote => Transition::Simple(Token::String),
            _ => Transition::Error,
        },
        Token::Colon => match ty {
            CharacterType::Space | CharacterType::Whitespace => Transition::Simple(Token::Colon),
            CharacterType::Colon => Transition::Complex(ComplexToken::Kolon),
            _ => Transition::Error,
        },
        Token::Value => match ty {
            CharacterType::Space | CharacterType::Whitespace => Transition::Simple(Token::Value),
            CharacterType::BraceOpen => Transition::Complex(ComplexToken::BraceOpen),
            CharacterType::BracketOpen => Transition::Complex(ComplexToken::BracketOpen),
            CharacterType::Quote => Transition::Simple(Token::String),
            CharacterType::Minus => Transition::Simple(Token::Minus),
            CharacterType::Zero => Transition::Simple(Token::Zero),
            CharacterType::Digit => Transition::Simple(Token::Integer),
            CharacterType::LowF => Transition::Simple(Token::FalseFa),
            CharacterType::LowN => Transition::Simple(Token::NullNu),
            CharacterType::LowT => Transition::Simple(Token::TrueTr),
            _ => Transition::Error,
        },
        Token::Array => match ty {
            CharacterType::Space | CharacterType::Whitespace => Transition::Simple(Token::Array),
            CharacterType::BraceOpen => Transition::Complex(ComplexToken::BraceOpen),
            CharacterType::BracketOpen => Transition::Complex(ComplexToken::BracketOpen),
            CharacterType::BracketClose => Transition::Complex(ComplexToken::BracketClose),
            CharacterType::Quote => Transition::Simple(Token::String),
            CharacterType::Minus => Transition::Simple(Token::Minus),
            CharacterType::Zero => Transition::Simple(Token::Zero),
            CharacterType::Digit => Transition::Simple(Token::Integer),
            CharacterType::LowF => Transition::Simple(Token::FalseFa),
            CharacterType::LowN => Transition::Simple(Token::NullNu),
            CharacterType::LowT => Transition::Simple(Token::TrueTr),
            _ => Transition::Error,
        },
        Token::String => match ty {
            CharacterType::Whitespace => Transition::Error,
            CharacterType::Quote => Transition::Complex(ComplexToken::Quote),
            CharacterType::Backslash => Transition::Simple(Token::Escape),
            _ => Transition::Simple(Token::String),
        },
        Token::Escape => match ty {
            CharacterType::Quote
            | CharacterType::Backslash
            | CharacterType::Slash
            | CharacterType::LowB
            | CharacterType::LowF
            | CharacterType::LowN
            | CharacterType::LowR
            | CharacterType::LowT => Transition::Simple(Token::String),
            CharacterType::LowU => Transition::Simple(Token::U1),
            _ => Transition::Error,
        },
        Token::U1 => if hex_class(ty) {
            Transition::Simple(Token::U2)
        } else {
            Transition::Error
        },
        Token::U2 => if hex_class(ty) {
            Transition::Simple(Token::U3)
        } else {
            Transition::Error
        },
        Token::U3 => if hex_class(ty) {
            Transition::Simple(Token::U4)
        } else {
            Transition::Error
        },
        Token::U4 => if hex_class(ty) {
            Transition::Simple(Token::String)
        } else {
            Transition::Error
        },
        Token::Minus => match ty {
            CharacterType::Zero => Transition::Simple(Token::Zero),
            CharacterType::Digit => Transition::Simple(Token::Integer),
            _ => Transition::Error,
        },
        Token::Zero => match ty {
            CharacterType::Space | CharacterType::Whitespace => Transition::Simple(Token::Okay),
            CharacterType::BraceClose => Transition::Complex(ComplexToken::BraceClose),
            CharacterType::BracketClose => Transition::Complex(ComplexToken::BracketClose),
            CharacterType::Comma => Transition::Complex(ComplexToken::Comma),
            CharacterType::Dot => Transition::Simple(Token::Fraction1),
            CharacterType::LowE | CharacterType::E => Transition::Simple(Token::Exponent1),
            _ => Transition::Error,
        },
        Token::Integer => match ty {
            CharacterType::Space | CharacterType::Whitespace => Transition::Simple(Token::Okay),
            CharacterType::BraceClose => Transition::Complex(ComplexToken::BraceClose),
            CharacterType::BracketClose => Transition::Complex(ComplexToken::BracketClose),
            CharacterType::Comma => Transition::Complex(ComplexToken::Comma),
            CharacterType::Dot => Transition::Simple(Token::Fraction1),
            CharacterType::Zero | CharacterType::Digit => Transition::Simple(Token::Integer),
            CharacterType::LowE | CharacterType::E => Transition::Simple(Token::Exponent1),
            _ => Transition::Error,
        },
        Token::Fraction1 => match ty {
            CharacterType::Zero | CharacterType::Digit => Transition::Simple(Token::Fraction2),
            _ => Transition::Error,
        },
        Token::Fraction2 => match ty {
            CharacterType::Space | CharacterType::Whitespace => Transition::Simple(Token::Okay),
            CharacterType::BraceClose => Transition::Complex(ComplexToken::BraceClose),
            CharacterType::BracketClose => Transition::Complex(ComplexToken::BracketClose),
            CharacterType::Comma => Transition::Complex(ComplexToken::Comma),
            CharacterType::Zero | CharacterType::Digit => Transition::Simple(Token::Fraction2),
            CharacterType::LowE | CharacterType::E => Transition::Simple(Token::Exponent1),
            _ => Transition::Error,
        },
        Token::Exponent1 => match ty {
            CharacterType::Plus | CharacterType::Minus => Transition::Simple(Token::Exponent2),
            CharacterType::Zero | CharacterType::Digit => Transition::Simple(Token::Exponent3),
            _ => Transition::Error,
        },
        Token::Exponent2 => match ty {
            CharacterType::Zero | CharacterType::Digit => Transition::Simple(Token::Exponent3),
            _ => Transition::Error,
        },
        Token::Exponent3 => match ty {
            CharacterType::Space | CharacterType::Whitespace => Transition::Simple(Token::Okay),
            CharacterType::BraceClose => Transition::Complex(ComplexToken::BraceClose),
            CharacterType::BracketClose => Transition::Complex(ComplexToken::BracketClose),
            CharacterType::Comma => Transition::Complex(ComplexToken::Comma),
            CharacterType::Zero | CharacterType::Digit => Transition::Simple(Token::Exponent3),
            _ => Transition::Error,
        },
        Token::TrueTr => match ty {
            CharacterType::LowR => Transition::Simple(Token::TrueTru),
            _ => Transition::Error,
        },
        Token::TrueTru => match ty {
            CharacterType::LowU => Transition::Simple(Token::TrueTrue),
            _ => Transition::Error,
        },
        Token::TrueTrue => match ty {
            CharacterType::LowE => Transition::Simple(Token::Okay),
            _ => Transition::Error,
        },
        Token::FalseFa => match ty {
            CharacterType::LowA => Transition::Simple(Token::FalseFal),
            _ => Transition::Error,
        },
        Token::FalseFal => match ty {
            CharacterType::LowL => Transition::Simple(Token::FalseFals),
            _ => Transition::Error,
        },
        Token::FalseFals => match ty {
            CharacterType::LowS => Transition::Simple(Token::FalseFalse),
            _ => Transition::Error,
        },
        Token::FalseFalse => match ty {
            CharacterType::LowE => Transition::Simple(Token::Okay),
            _ => Transition::Error,
        },
        Token::NullNu => match ty {
            CharacterType::LowU => Transition::Simple(Token::NullNul),
            _ => Transition::Error,
        },
        Token::NullNul => match ty {
            CharacterType::LowL => Transition::Simple(Token::NullNull),
            _ => Transition::Error,
        },
        Token::NullNull => match ty {
            CharacterType::LowL => Transition::Simple(Token::Okay),
            _ => Transition::Error,
        },
    }
}

/// Executable mirror of [`is_hex_class`].
fn hex_class(ty: CharacterType) -> (r: bool)
    ensures
        r == is_hex_class(ty),
{
    match ty {
        CharacterType::Zero
        | CharacterType::Digit
        | CharacterType::LowA
        | CharacterType::LowB
        | CharacterType::LowC
        | CharacterType::LowD
        | CharacterType::LowE
        | CharacterType::LowF
        | CharacterType::Abcdf
        | CharacterType::E => true,
        _ => false,
    }
}

} // verus!
