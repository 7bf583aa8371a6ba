use crate::errors::CalculatorErrors;
use crate::errors::ErrorKind;
use crate::text::chars_of;
use crate::text::token_spans;
use crate::text::tokens;
use std::str::FromStr;
use vstd::prelude::*;
use vstd::string::*;

verus! {

/// One request to the calculator.
#[derive(PartialEq, Eq, Structural, Debug, Clone, Copy)]
pub enum Operation {
    /// Adds the operand to the value.
    Add(u8),
    /// Subtracts the operand from the value.
    Sub(u8),
    /// Multiplies the value by the operand.
    Mul(u8),
    /// Divides the value by the operand.
    Div(u8),
    /// Asks for the value.
    Get,
}

/// Whether `c` is one of the digits `0` to `9`.
pub open spec fn is_digit(c: char) -> bool {
    '0' <= c <= '9'
}

/// The number that the digit `c` stands for; 0 for any other character.
pub open spec fn digit_value(c: char) -> nat {
    if is_digit(c) {
        (c as u32 - '0' as u32) as nat
    } else {
        0
    }
}

/// The number that `text` writes in base 10.
pub open spec fn decimal_value(text: Seq<char>) -> nat
    decreases text.len(),
{
    if text.len() == 0 {
        0
    } else {
        10 * decimal_value(text.drop_last()) + digit_value(text.last())
    }
}

/// The operand that `text` writes: one or more digits, with no sign, whose
/// number is at most 255. Any other text writes none.
pub open spec fn operand_of(text: Seq<char>) -> Option<u8> {
    if text.len() > 0 && (forall|i: int| 0 <= i < text.len() ==> is_digit(#[trigger] text[i]))
        && decimal_value(text) <= 255 {
        Some(decimal_value(text) as u8)
    } else {
        None
    }
}

/// The operation that a symbol and the text of an operand stand for. A text
/// that writes no operand is a parse failure, whatever the symbol; with an
/// operand, a symbol other than `+ - * /` is an invalid operation.
pub open spec fn operation_of(symbol: Seq<char>, operand: Seq<char>) -> Result<
    Operation,
    ErrorKind,
> {
    match operand_of(operand) {
        None => Err(ErrorKind::ParseFailure),
        Some(n) => if symbol == "+"@ {
            Ok(Operation::Add(n))
        } else if symbol == "-"@ {
            Ok(Operation::Sub(n))
        } else if symbol == "*"@ {
            Ok(Operation::Mul(n))
        } else if symbol == "/"@ {
            Ok(Operation::Div(n))
        } else {
            Err(ErrorKind::InvalidOperation(symbol))
        },
    }
}

/// The operation that a request line stands for: `GET` alone, or `OP` with a
/// symbol and an operand. The line is split at whitespace; anything else is a
/// parse failure.
pub open spec fn request_of(line: Seq<char>) -> Result<Operation, ErrorKind> {
    let words = tokens(line);
    if words.len() == 1 && words[0] == "GET"@ {
        Ok(Operation::Get)
    } else if words.len() == 3 && words[0] == "OP"@ {
        operation_of(words[1], words[2])
    } else {
        Err(ErrorKind::ParseFailure)
    }
}

/// What a parser's result stands for: the operation, or the kind of the error.
pub open spec fn parsed(result: Result<Operation, CalculatorErrors>) -> Result<
    Operation,
    ErrorKind,
> {
    match result {
        Ok(op) => Ok(op),
        Err(e) => Err(e@),
    }
}

/// The number written by a text is at least the number written by any of
/// its prefixes.
proof fn lemma_decimal_value_grows(text: Seq<char>, k: int)
    requires
        0 <= k <= text.len(),
    ensures
        decimal_value(text.take(k)) <= decimal_value(text),
    decreases text.len() - k,
{
    if k < text.len() {
        lemma_decimal_value_grows(text, k + 1);
        assert(text.take(k + 1).drop_last() =~= text.take(k));
    } else {
        assert(text.take(k) =~= text);
    }
}

/// Whether `word` holds the characters of `text`.
fn same_text(word: &Vec<char>, text: &str) -> (same: bool)
    ensures
        same == (word@ == text@),
{
    let other = chars_of(text);
    if word.len() != other.len() {
        return false;
    }
    let mut i: usize = 0;
    while i < word.len()
        invariant
            other@ == text@,
            word.len() == other.len(),
            i <= word.len(),
            forall|k: int| 0 <= k < i ==> word[k] == other[k],
        decreases word.len() - i,
    {
        if word[i] != other[i] {
            return false;
        }
        i += 1;
    }
    assert(word@ =~= other@);
    true
}

/// The operand that `text` writes, if it writes one.
fn parse_operand(text: &Vec<char>) -> (operand: Option<u8>)
    ensures
        operand == operand_of(text@),
{
    if text.len() == 0 {
        return None;
    }
    let mut value: u16 = 0;
    let mut i: usize = 0;
    while i < text.len()
        invariant
            i <= text.len(),
            value <= 255,
            value == decimal_value(text@.take(i as int)),
            forall|k: int| 0 <= k < i ==> is_digit(#[trigger] text[k]),
        decreases text.len() - i,
    {
        let c: char = text[i];
        if c < '0' || c > '9' {
            return None;
        }
        let digit: u16 = (c as u32 - '0' as u32) as u16;
        assert(text@.take(i + 1).drop_last() =~= text@.take(i as int));
        value = 10 * value + digit;
        i += 1;
        if value > 255 {
            proof {
                lemma_decimal_value_grows(text@, i as int);
            }
            return None;
        }
    }
    assert(text@.take(i as int) =~= text@);
    Some(value as u8)
}

impl Operation {
    /// The operation that `operation`, a symbol, and `operand`, the text of
    /// an operand, stand for.
    pub fn get_op(operation: &str, operand: &str) -> (result: Result<Operation, CalculatorErrors>)
        ensures
            parsed(result) == operation_of(operation@, operand@),
            result matches Err(e) ==> e@ == ErrorKind::ParseFailure || e@
                == ErrorKind::InvalidOperation(operation@),
    {
        let operand: u8 = match parse_operand(&chars_of(operand)) {
            Some(operand) => operand,
            None => return Err(CalculatorErrors::ParseFailure),
        };
        let symbol = chars_of(operation);
        if same_text(&symbol, "+") {
            Ok(Operation::Add(operand))
        } else if same_text(&symbol, "-") {
            Ok(Operation::Sub(operand))
        } else if same_text(&symbol, "*") {
            Ok(Operation::Mul(operand))
        } else if same_text(&symbol, "/") {
            Ok(Operation::Div(operand))
        } else {
            Err(CalculatorErrors::InvalidOperation(operation.to_owned()))
        }
    }
}

impl FromStr for Operation {
    type Err = CalculatorErrors;

    /// The operation that the request line `s` stands for.
    fn from_str(s: &str) -> (result: Result<Operation, CalculatorErrors>)
        ensures
            parsed(result) == request_of(s@),
            result matches Err(e) ==> e@ == ErrorKind::ParseFailure || e@
                == ErrorKind::InvalidOperation(tokens(s@)[1]),
    {
        let chars = chars_of(s);
        let spans = token_spans(&chars);
        let ghost words = tokens(s@);
        assert(words.len() == spans.len());
        assert(forall|k: int|
            0 <= k < spans.len() ==> #[trigger] words[k] == s@.subrange(
                spans[k].0 as int,
                spans[k].1 as int,
            ));
        if spans.len() == 1 {
            let first = s.substring_char(spans[0].0, spans[0].1);
            if same_text(&chars_of(first), "GET") {
                return Ok(Operation::Get);
            }
        } else if spans.len() == 3 {
            let first = s.substring_char(spans[0].0, spans[0].1);
            if same_text(&chars_of(first), "OP") {
                let symbol = s.substring_char(spans[1].0, spans[1].1);
                let operand = s.substring_char(spans[2].0, spans[2].1);
                return Operation::get_op(symbol, operand);
            }
        }
        Err(CalculatorErrors::ParseFailure)
    }
}

} // verus!
