use vstd::prelude::*;
use vstd::string::*;

verus! {

/// Everything that can go wrong while serving or issuing a request.
#[derive(Debug, PartialEq, Eq)]
pub enum CalculatorErrors {
    /// A division by zero was requested.
    DivisionByZero,
    /// The request line is not of one of the accepted forms.
    ParseFailure,
    /// The operator symbol of a request is unknown; holds the symbol.
    InvalidOperation(String),
    /// An operand is not an integer; holds the operand. For callers that
    /// tell this apart: the request parser reports `ParseFailure` instead.
    InvalidInteger(String),
    /// A message that the protocol does not expect; holds the message. For
    /// callers that check replies: the client of this library prints nothing
    /// for such a reply.
    UnexpectedMessage(String),
    /// Waiting for a handler to finish failed.
    JoinFailure,
    /// The lock on the shared calculator cannot be taken.
    LockFailure,
    /// Writing to a connection failed.
    WritingFailure,
    /// Reading from a connection failed.
    ListeningFailure,
    /// A socket could not be bound or connected.
    SocketFailure,
    /// The file of operations could not be opened.
    FileOpenFailure,
    /// A line of the file of operations could not be read.
    ReadLineFailure,
    /// The program was started with the wrong number of arguments.
    ArgsLenFailure,
}

/// The mathematical value of a [`CalculatorErrors`]: the same variants, with
/// text as sequences of characters.
pub ghost enum ErrorKind {
    DivisionByZero,
    ParseFailure,
    InvalidOperation(Seq<char>),
    InvalidInteger(Seq<char>),
    UnexpectedMessage(Seq<char>),
    JoinFailure,
    LockFailure,
    WritingFailure,
    ListeningFailure,
    SocketFailure,
    FileOpenFailure,
    ReadLineFailure,
    ArgsLenFailure,
}

impl View for CalculatorErrors {
    type V = ErrorKind;

    open spec fn view(&self) -> ErrorKind {
        match self {
            CalculatorErrors::DivisionByZero => ErrorKind::DivisionByZero,
            CalculatorErrors::ParseFailure => ErrorKind::ParseFailure,
            CalculatorErrors::InvalidOperation(symbol) => ErrorKind::InvalidOperation(symbol@),
            CalculatorErrors::InvalidInteger(operand) => ErrorKind::InvalidInteger(operand@),
            CalculatorErrors::UnexpectedMessage(message) => ErrorKind::UnexpectedMessage(message@),
            CalculatorErrors::JoinFailure => ErrorKind::JoinFailure,
            CalculatorErrors::LockFailure => ErrorKind::LockFailure,
            CalculatorErrors::WritingFailure => ErrorKind::WritingFailure,
            CalculatorErrors::ListeningFailure => ErrorKind::ListeningFailure,
            CalculatorErrors::SocketFailure => ErrorKind::SocketFailure,
            CalculatorErrors::FileOpenFailure => ErrorKind::FileOpenFailure,
            CalculatorErrors::ReadLineFailure => ErrorKind::ReadLineFailure,
            CalculatorErrors::ArgsLenFailure => ErrorKind::ArgsLenFailure,
        }
    }
}

/// The reply line, without its newline, that reports an error of kind `e`.
pub open spec fn error_message(e: ErrorKind) -> Seq<char> {
    match e {
        ErrorKind::DivisionByZero => "ERROR \"division by zero\""@,
        ErrorKind::ParseFailure => "ERROR \"parsing error\""@,
        ErrorKind::InvalidOperation(symbol) => "ERROR \"parsing error: unknown operation: "@
            + symbol + "\""@,
        ErrorKind::InvalidInteger(operand) => "ERROR \"parsing error: invalid integer: "@
            + operand + "\""@,
        ErrorKind::UnexpectedMessage(message) => "ERROR \"unexpected message: "@ + message
            + "\""@,
        ErrorKind::JoinFailure => "ERROR \"thread join failure\""@,
        ErrorKind::LockFailure => "ERROR \"mutex lock failure\""@,
        ErrorKind::WritingFailure => "ERROR \"writing failure\""@,
        ErrorKind::ListeningFailure => "ERROR \"reading failure\""@,
        ErrorKind::SocketFailure => "ERROR \"socket failure\""@,
        ErrorKind::FileOpenFailure => "ERROR \"file open failure\""@,
        ErrorKind::ReadLineFailure => "ERROR \"line reading failure\""@,
        ErrorKind::ArgsLenFailure => "ERROR \"invalid number of arguments\""@,
    }
}

/// Every error message starts with the word `ERROR`, whatever detail it
/// carries.
pub proof fn lemma_error_message_starts_with_error(e: ErrorKind)
    ensures
        "ERROR"@.is_prefix_of(error_message(e)),
{
    reveal_strlit("ERROR");
    reveal_strlit("ERROR \"division by zero\"");
    reveal_strlit("ERROR \"parsing error\"");
    reveal_strlit("ERROR \"parsing error: unknown operation: ");
    reveal_strlit("ERROR \"parsing error: invalid integer: ");
    reveal_strlit("ERROR \"unexpected message: ");
    reveal_strlit("ERROR \"thread join failure\"");
    reveal_strlit("ERROR \"mutex lock failure\"");
    reveal_strlit("ERROR \"writing failure\"");
    reveal_strlit("ERROR \"reading failure\"");
    reveal_strlit("ERROR \"socket failure\"");
    reveal_strlit("ERROR \"file open failure\"");
    reveal_strlit("ERROR \"line reading failure\"");
    reveal_strlit("ERROR \"invalid number of arguments\"");
    assert(error_message(e).subrange(0, 5) =~= "ERROR"@);
}

/// `prefix`, then `detail`, then a closing double quote.
fn quoted(prefix: &str, detail: &String) -> (message: String)
    ensures
        message@ == prefix@ + detail@ + "\""@,
{
    let mut message = prefix.to_owned();
    message.append(detail.as_str());
    message.append("\"");
    message
}

impl CalculatorErrors {
    /// The reply line, without its newline, that reports this error.
    pub fn get_message(&self) -> (message: String)
        ensures
            message@ == error_message(self@),
    {
        match self {
            Self::DivisionByZero => "ERROR \"division by zero\"".to_owned(),
            Self::ParseFailure => "ERROR \"parsing error\"".to_owned(),
            Self::InvalidOperation(symbol) => quoted(
                "ERROR \"parsing error: unknown operation: ",
                symbol,
            ),
            Self::InvalidInteger(operand) => quoted(
                "ERROR \"parsing error: invalid integer: ",
                operand,
            ),
            Self::UnexpectedMessage(message) => quoted("ERROR \"unexpected message: ", message),
            Self::JoinFailure => "ERROR \"thread join failure\"".to_owned(),
            Self::LockFailure => "ERROR \"mutex lock failure\"".to_owned(),
            Self::WritingFailure => "ERROR \"writing failure\"".to_owned(),
            Self::ListeningFailure => "ERROR \"reading failure\"".to_owned(),
            Self::SocketFailure => "ERROR \"socket failure\"".to_owned(),
            Self::FileOpenFailure => "ERROR \"file open failure\"".to_owned(),
            Self::ReadLineFailure => "ERROR \"line reading failure\"".to_owned(),
            Self::ArgsLenFailure => "ERROR \"invalid number of arguments\"".to_owned(),
        }
    }
}

} // verus!
