//! Text of slot keys and tokens, as messages and trees show them.

use crate::lexer::IndexKey;
use crate::lexer::Token;
use vstd::prelude::*;
use vstd::string::StringExecFns;

verus! {

/// The digit `d` as a text of one character.
pub open spec fn digit_text(d: u8) -> Seq<char> {
    seq![('0' as u8 + d) as char]
}

/// The slot key in base ten, without leading zeros.
pub open spec fn index_text(key: IndexKey) -> Seq<char> {
    if key < 10 {
        digit_text(key)
    } else if key < 100 {
        digit_text(key / 10) + digit_text(key % 10)
    } else {
        digit_text(key / 100) + digit_text((key / 10) % 10) + digit_text(key % 10)
    }
}

/// The name of the token, and for a numeral its key in round brackets.
pub open spec fn token_text(token: Token) -> Seq<char> {
    match token {
        Token::And => "And"@,
        Token::Eof => "Eof"@,
        Token::Eq => "Eq"@,
        Token::Ge => "Ge"@,
        Token::Gt => "Gt"@,
        Token::If => "If"@,
        Token::Le => "Le"@,
        Token::LeftParen => "LeftParen"@,
        Token::Lt => "Lt"@,
        Token::Number(key) => "Number("@ + index_text(key) + ")"@,
        Token::Null => "Null"@,
        Token::Nq => "Nq"@,
        Token::Or => "Or"@,
        Token::RightParen => "RightParen"@,
        Token::Semicolon => "Semicolon"@,
        Token::Undef => "Undef"@,
    }
}

/// The characters of the text.
pub fn chars_of(text: &str) -> (chars: Vec<char>)
    ensures
        chars@ == text@,
{
    let mut chars: Vec<char> = Vec::new();
    for ch in iter: text.chars()
        invariant
            iter.seq() == text@,
            chars@ == iter.seq().take(iter.index() as int),
    {
        chars.push(ch);
    }
    chars
}

/// The digit `d` as a text.
fn digit_to_str(d: u8) -> (text: &'static str)
    requires
        d < 10,
    ensures
        text@ == digit_text(d),
{
    proof {
        reveal_strlit("0");
        reveal_strlit("1");
        reveal_strlit("2");
        reveal_strlit("3");
        reveal_strlit("4");
        reveal_strlit("5");
        reveal_strlit("6");
        reveal_strlit("7");
        reveal_strlit("8");
        reveal_strlit("9");
    }
    let text = match d {
        0 => "0",
        1 => "1",
        2 => "2",
        3 => "3",
        4 => "4",
        5 => "5",
        6 => "6",
        7 => "7",
        8 => "8",
        _ => "9",
    };
    assert(text@ =~= digit_text(d));
    text
}

/// The slot key in base ten.
pub fn index_to_string(key: IndexKey) -> (text: String)
    ensures
        text@ == index_text(key),
{
    let mut text = String::new();
    if key >= 100 {
        text.append(digit_to_str(key / 100));
    }
    if key >= 10 {
        text.append(digit_to_str((key / 10) % 10));
    }
    text.append(digit_to_str(key % 10));
    assert(text@ =~= index_text(key));
    text
}

/// The text of the token.
pub fn token_to_string(token: Token) -> (text: String)
    ensures
        text@ == token_text(token),
{
    match token {
        Token::And => String::from_str("And"),
        Token::Eof => String::from_str("Eof"),
        Token::Eq => String::from_str("Eq"),
        Token::Ge => String::from_str("Ge"),
        Token::Gt => String::from_str("Gt"),
        Token::If => String::from_str("If"),
        Token::Le => String::from_str("Le"),
        Token::LeftParen => String::from_str("LeftParen"),
        Token::Lt => String::from_str("Lt"),
        Token::Number(key) => {
            let mut text = String::from_str("Number(");
            text.append(index_to_string(key).as_str());
            text.append(")");
            text
        },
        Token::Null => String::from_str("Null"),
        Token::Nq => String::from_str("Nq"),
        Token::Or => String::from_str("Or"),
        Token::RightParen => String::from_str("RightParen"),
        Token::Semicolon => String::from_str("Semicolon"),
        Token::Undef => String::from_str("Undef"),
    }
}

} // verus!
