use crate::errors::error_message;
use crate::errors::CalculatorErrors;
use crate::errors::ErrorKind;
use crate::operation::decimal_value;
use crate::operation::digit_value;
use crate::operation::is_digit;
use crate::operation::operand_of;
use vstd::prelude::*;
use vstd::string::*;

verus! {

/// What the server answers to one request.
#[derive(Debug, PartialEq, Eq)]
pub enum Response {
    /// The operation was applied.
    Okay,
    /// The value that the calculator holds.
    Value(u8),
    /// The request failed.
    Error(CalculatorErrors),
}

/// The mathematical value of a [`Response`].
pub ghost enum Reply {
    Okay,
    Value(u8),
    Error(ErrorKind),
}

impl View for Response {
    type V = Reply;

    open spec fn view(&self) -> Reply {
        match self {
            Response::Okay => Reply::Okay,
            Response::Value(value) => Reply::Value(*value),
            Response::Error(e) => Reply::Error(e@),
        }
    }
}

/// The character that writes the digit `d`.
pub open spec fn digit_char(d: nat) -> char
    recommends
        d < 10,
{
    ('0' as u32 + d) as char
}

/// `n` written in base 10, with no leading zero but for 0 itself.
pub open spec fn decimal_text(n: nat) -> Seq<char>
    decreases n,
{
    if n < 10 {
        seq![digit_char(n)]
    } else {
        decimal_text(n / 10).push(digit_char(n % 10))
    }
}

/// The reply that reports what the calculator answered.
pub open spec fn reply_to(answer: Result<Option<u8>, CalculatorErrors>) -> Reply {
    match answer {
        Ok(Some(value)) => Reply::Value(value),
        Ok(None) => Reply::Okay,
        Err(e) => Reply::Error(e@),
    }
}

/// The text of a reply, without its newline.
pub open spec fn reply_message(reply: Reply) -> Seq<char> {
    match reply {
        Reply::Okay => "OK"@,
        Reply::Value(value) => "VALUE "@ + decimal_text(value as nat),
        Reply::Error(e) => error_message(e),
    }
}

/// A number written in base 10 is made of digits, and reads back as itself:
/// the server's `VALUE` payload is an operand in the parser's sense.
pub proof fn lemma_decimal_text_reads_back(n: nat)
    ensures
        decimal_text(n).len() > 0,
        forall|i: int| 0 <= i < decimal_text(n).len() ==> is_digit(#[trigger] decimal_text(n)[i]),
        decimal_value(decimal_text(n)) == n,
        n <= 255 ==> operand_of(decimal_text(n)) == Some(n as u8),
    decreases n,
{
    let text = decimal_text(n);
    if n < 10 {
        assert(text.drop_last() =~= Seq::<char>::empty());
        assert(decimal_value(text.drop_last()) == 0);
    } else {
        lemma_decimal_text_reads_back(n / 10);
        assert(text.drop_last() =~= decimal_text(n / 10));
    }
    assert(digit_value(digit_char(n % 10)) == n % 10);
}

/// The text that writes the digit `d`.
fn digit_text(d: u8) -> (text: &'static str)
    requires
        d < 10,
    ensures
        text@ == seq![digit_char(d as nat)],
{
    proof {
        reveal_strlit("0");
        reveal_strlit("1");
        reveal_strlit("2");
        reveal_strlit("3");
        reveal_strlit("4");
        reveal_strlit("5");
        reveal_strlit("6");
        reveal_strlit("7");
        reveal_strlit("8");
        reveal_strlit("9");
    }
    let text = match d {
        0 => "0",
        1 => "1",
        2 => "2",
        3 => "3",
        4 => "4",
        5 => "5",
        6 => "6",
        7 => "7",
        8 => "8",
        _ => "9",
    };
    assert(text@ =~= seq![digit_char(d as nat)]);
    text
}

impl Response {
    /// The response that reports what the calculator answered: the value
    /// where it gave one, `Okay` where it gave none, the error where it failed.
    pub fn from_answer(answer: Result<Option<u8>, CalculatorErrors>) -> (response: Response)
        ensures
            response@ == reply_to(answer),
    {
        match answer {
            Ok(Some(value)) => Response::Value(value),
            Ok(None) => Response::Okay,
            Err(e) => Response::Error(e),
        }
    }

    /// The text of this response, without its newline.
    pub fn get_message(&self) -> (message: String)
        ensures
            message@ == reply_message(self@),
    {
        match self {
            Self::Okay => "OK".to_owned(),
            Self::Value(value) => {
                let value: u8 = *value;
                let mut message = "VALUE ".to_owned();
                if value >= 100 {
                    message.append(digit_text(value / 100));
                }
                if value >= 10 {
                    message.append(digit_text(value / 10 % 10));
                }
                message.append(digit_text(value % 10));
                proof {
                    let n = value as nat;
                    reveal_with_fuel(decimal_text, 3);
                    assert(message@ =~= "VALUE "@ + decimal_text(n));
                }
                message
            },
            Self::Error(e) => e.get_message(),
        }
    }

    /// The line that carries this response: its text and a newline.
    pub fn get_line(&self) -> (line: String)
        ensures
            line@ == reply_message(self@) + "\n"@,
    {
        let mut line = self.get_message();
        line.append("\n");
        line
    }
}

} // verus!
