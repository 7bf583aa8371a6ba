use crate::errors::error_message;
use crate::errors::ErrorKind;
use crate::errors::lemma_error_message_starts_with_error;
use crate::operation::is_digit;
use crate::operation::Operation;
use crate::operation::request_of;
use crate::response::decimal_text;
use crate::response::lemma_decimal_text_reads_back;
use crate::response::Reply;
use crate::response::reply_message;
use crate::text::chars_of;
use crate::text::is_space;
use crate::text::is_word;
use crate::text::lemma_tokens_after_space;
use crate::text::lemma_tokens_of_word_then;
use crate::text::tokens;
use vstd::prelude::*;
use vstd::string::*;

verus! {

/// What the client prints for a reply line.
#[derive(Debug, PartialEq, Eq)]
pub enum Output {
    /// Text for the standard output.
    Stdout(String),
    /// Text for the standard error.
    Stderr(String),
    /// Nothing is printed.
    Nothing,
}

/// The mathematical value of an [`Output`].
pub ghost enum Printed {
    Stdout(Seq<char>),
    Stderr(Seq<char>),
    Nothing,
}

impl View for Output {
    type V = Printed;

    open spec fn view(&self) -> Printed {
        match self {
            Output::Stdout(text) => Printed::Stdout(text@),
            Output::Stderr(text) => Printed::Stderr(text@),
            Output::Nothing => Printed::Nothing,
        }
    }
}

/// The request line that carries `data` under the keyword `message_op`.
pub open spec fn request_text(message_op: Seq<char>, data: Seq<char>) -> Seq<char> {
    message_op + " "@ + data + "\n"@
}

/// The symbol that writes `op`; for `Get`, which has none, the empty text.
pub open spec fn symbol_of(op: Operation) -> Seq<char> {
    match op {
        Operation::Add(_) => "+"@,
        Operation::Sub(_) => "-"@,
        Operation::Mul(_) => "*"@,
        Operation::Div(_) => "/"@,
        Operation::Get => ""@,
    }
}

/// The operand of `op`; for `Get`, which has none, 0.
pub open spec fn operand_in(op: Operation) -> nat {
    match op {
        Operation::Add(operand) => operand as nat,
        Operation::Sub(operand) => operand as nat,
        Operation::Mul(operand) => operand as nat,
        Operation::Div(operand) => operand as nat,
        Operation::Get => 0,
    }
}

/// The request line by which the client asks for `op`: for `Get` the
/// keyword `GET` with no data; for any other the keyword `OP` with the
/// symbol, a space and the operand in base 10.
pub open spec fn request_for(op: Operation) -> Seq<char> {
    if op is Get {
        request_text("GET"@, ""@)
    } else {
        request_text("OP"@, symbol_of(op) + " "@ + decimal_text(operand_in(op)))
    }
}

/// The number of characters of `s` before its first space; all of them if
/// it has none.
pub open spec fn field_len(s: Seq<char>) -> nat
    decreases s.len(),
{
    if s.len() == 0 || s[0] == ' ' {
        0
    } else {
        1 + field_len(s.drop_first())
    }
}

/// Whether `s` holds a space.
pub open spec fn has_space(s: Seq<char>) -> bool {
    exists|i: int| 0 <= i < s.len() && s[i] == ' '
}

/// What follows the first space of `s`, up to the next space or the end.
pub open spec fn second_field(s: Seq<char>) -> Seq<char>
    recommends
        has_space(s),
{
    let rest = s.skip(field_len(s) as int + 1);
    rest.take(field_len(rest) as int)
}

/// What the client prints for `reply`: of a reply that starts with `VALUE`
/// its second field, on the standard output; a reply that starts with
/// `ERROR` as it is, on the standard error; of any other nothing.
pub open spec fn printed_for(reply: Seq<char>) -> Printed {
    if "VALUE"@.is_prefix_of(reply) {
        Printed::Stdout(second_field(reply))
    } else if "ERROR"@.is_prefix_of(reply) {
        Printed::Stderr(reply)
    } else {
        Printed::Nothing
    }
}

/// A field is no longer than its text; it ends at a space exactly where the
/// text has one.
pub proof fn lemma_field_len_bounds(s: Seq<char>)
    ensures
        field_len(s) <= s.len(),
        field_len(s) < s.len() <==> has_space(s),
        field_len(s) < s.len() ==> s[field_len(s) as int] == ' ',
        forall|i: int| 0 <= i < field_len(s) ==> s[i] != ' ',
    decreases s.len(),
{
    if s.len() > 0 && s[0] != ' ' {
        let rest = s.drop_first();
        lemma_field_len_bounds(rest);
        if has_space(s) {
            let i = choose|i: int| 0 <= i < s.len() && s[i] == ' ';
            assert(rest[i - 1] == ' ');
        }
        if has_space(rest) {
            let i = choose|i: int| 0 <= i < rest.len() && rest[i] == ' ';
            assert(s[i + 1] == ' ');
        }
        assert forall|i: int| 0 <= i < field_len(s) implies s[i] != ' ' by {
            if i > 0 {
                assert(s[i] == rest[i - 1]);
            }
        }
    }
}

/// The field that starts at `from` ends at the first space at or after
/// `from`.
proof fn lemma_field_ends(s: Seq<char>, from: int, to: int)
    requires
        0 <= from <= to <= s.len(),
        forall|i: int| from <= i < to ==> s[i] != ' ',
        to == s.len() || s[to] == ' ',
    ensures
        field_len(s.skip(from)) == to - from,
    decreases to - from,
{
    if from < to {
        lemma_field_ends(s, from + 1, to);
        assert(s.skip(from).drop_first() =~= s.skip(from + 1));
    }
}

/// The client understands every line that the server sends. Of a `VALUE`
/// line it prints the number and the newline on the standard output, and
/// such a line always holds the space that [`reply_output`] asks for; an
/// `ERROR` line goes to the standard error as it is; for `OK` nothing is
/// printed.
pub proof fn lemma_client_reads_every_reply(reply: Reply)
    ensures
        ({
            let line = reply_message(reply) + "\n"@;
            &&& "VALUE"@.is_prefix_of(line) ==> has_space(line)
            &&& printed_for(line) == match reply {
                Reply::Okay => Printed::Nothing,
                Reply::Value(value) => Printed::Stdout(decimal_text(value as nat) + "\n"@),
                Reply::Error(_) => Printed::Stderr(line),
            }
        }),
{
    let line = reply_message(reply) + "\n"@;
    reveal_strlit("VALUE");
    reveal_strlit("ERROR");
    reveal_strlit("\n");
    match reply {
        Reply::Okay => {
            reveal_strlit("OK");
        },
        Reply::Value(value) => {
            reveal_strlit("VALUE ");
            let number = decimal_text(value as nat);
            let rest = number + "\n"@;
            lemma_decimal_text_reads_back(value as nat);
            assert(line =~= "VALUE "@ + rest);
            assert(line.subrange(0, 5) =~= "VALUE"@);
            assert(line[5] == ' ');
            lemma_field_ends(line, 0, 5);
            assert(line.skip(0) =~= line);
            assert(line.skip(6) =~= rest);
            assert forall|i: int| 0 <= i < rest.len() implies rest[i] != ' ' by {
                if i < number.len() {
                    assert(is_digit(number[i]));
                }
            }
            lemma_field_ends(rest, 0, rest.len() as int);
            assert(rest.skip(0) =~= rest);
            assert(rest.take(rest.len() as int) =~= rest);
        },
        Reply::Error(e) => {
            lemma_error_message_starts_with_error(e);
            assert(line.subrange(0, 5) =~= error_message(e).subrange(0, 5));
            assert(line[0] == "ERROR"@[0]);
            assert(line.subrange(0, 5)[0] == line[0]);
        },
    }
}

/// Three words with a space after each of the first two, and at most a
/// newline at the end, have themselves as tokens.
proof fn lemma_tokens_of_three_words(
    first: Seq<char>,
    second: Seq<char>,
    third: Seq<char>,
    end: Seq<char>,
)
    requires
        is_word(first),
        is_word(second),
        is_word(third),
        end == "\n"@ || end == Seq::<char>::empty(),
    ensures
        tokens(first + " "@ + second + " "@ + third + end) == seq![first, second, third],
{
    reveal_strlit("\n");
    reveal_strlit(" ");
    let none = Seq::<char>::empty();
    assert(tokens(end) == Seq::<Seq<char>>::empty()) by {
        if end.len() > 0 {
            assert(end =~= seq!['\n'] + none);
            lemma_tokens_after_space('\n', none);
        }
    }
    lemma_tokens_of_word_then(third, end);
    let after_second = " "@ + (third + end);
    assert(after_second =~= seq![' '] + (third + end));
    lemma_tokens_after_space(' ', third + end);
    lemma_tokens_of_word_then(second, after_second);
    let after_first = " "@ + (second + after_second);
    assert(after_first =~= seq![' '] + (second + after_second));
    lemma_tokens_after_space(' ', second + after_second);
    lemma_tokens_of_word_then(first, after_first);
    assert(first + " "@ + second + " "@ + third + end =~= first + after_first);
    assert(seq![first] + (seq![second] + (seq![third] + Seq::<Seq<char>>::empty())) =~= seq![
        first,
        second,
        third,
    ]);
}

/// The server reads every request of the client as the operation that the
/// client asked for, with the newline at the end of the line or without it.
pub proof fn lemma_server_reads_every_request(op: Operation)
    ensures
        request_of(request_for(op)) == Ok::<Operation, ErrorKind>(op),
        request_of(request_for(op).drop_last()) == Ok::<Operation, ErrorKind>(op),
{
    reveal_strlit("\n");
    reveal_strlit(" ");
    reveal_strlit("");
    reveal_strlit("GET");
    reveal_strlit("OP");
    reveal_strlit("+");
    reveal_strlit("-");
    reveal_strlit("*");
    reveal_strlit("/");
    let none = Seq::<char>::empty();
    let line = request_for(op);
    if op is Get {
        let word = "GET"@;
        assert(tokens(none) == Seq::<Seq<char>>::empty());
        assert(seq!['\n'] =~= seq!['\n'] + none);
        lemma_tokens_after_space('\n', none);
        lemma_tokens_after_space(' ', seq!['\n']);
        lemma_tokens_after_space(' ', none);
        lemma_tokens_of_word_then(word, seq![' '] + seq!['\n']);
        lemma_tokens_of_word_then(word, seq![' '] + none);
        assert(line =~= word + (seq![' '] + seq!['\n']));
        assert(line.drop_last() =~= word + (seq![' '] + none));
        assert(tokens(line) =~= seq![word]);
        assert(tokens(line.drop_last()) =~= seq![word]);
    } else {
        let symbol = symbol_of(op);
        let number = decimal_text(operand_in(op));
        lemma_decimal_text_reads_back(operand_in(op));
        assert(is_word(number)) by {
            assert forall|i: int| 0 <= i < number.len() implies !is_space(
                #[trigger] number[i],
            ) by {
                assert(is_digit(number[i]));
            }
        }
        assert(is_word(symbol));
        assert(is_word("OP"@));
        lemma_tokens_of_three_words("OP"@, symbol, number, "\n"@);
        lemma_tokens_of_three_words("OP"@, symbol, number, none);
        assert(line =~= "OP"@ + " "@ + symbol + " "@ + number + "\n"@);
        assert(line.drop_last() =~= "OP"@ + " "@ + symbol + " "@ + number + none);
        assert("+"@ != "-"@ && "+"@ != "*"@ && "+"@ != "/"@ && "-"@ != "*"@ && "-"@ != "/"@
            && "*"@ != "/"@) by {
            assert("+"@[0] == '+' && "-"@[0] == '-' && "*"@[0] == '*' && "/"@[0] == '/');
        }
    }
}

/// Whether `text` starts with the characters of `prefix`.
fn starts_with(text: &Vec<char>, prefix: &str) -> (starts: bool)
    ensures
        starts == prefix@.is_prefix_of(text@),
{
    let start = chars_of(prefix);
    if start.len() > text.len() {
        return false;
    }
    let mut i: usize = 0;
    while i < start.len()
        invariant
            start@ == prefix@,
            start.len() <= text.len(),
            i <= start.len(),
            forall|k: int| 0 <= k < i ==> text[k] == start[k],
        decreases start.len() - i,
    {
        if text[i] != start[i] {
            assert(text@.subrange(0, start@.len() as int)[i as int] != start@[i as int]);
            return false;
        }
        i += 1;
    }
    assert(text@.subrange(0, start@.len() as int) =~= start@);
    true
}

/// The first index at or after `from` at which `text` holds a space; the
/// length of `text` if there is none.
fn next_space(text: &Vec<char>, from: usize) -> (to: usize)
    requires
        from <= text.len(),
    ensures
        from <= to <= text.len(),
        to - from == field_len(text@.skip(from as int)),
{
    let mut to: usize = from;
    while to < text.len() && text[to] != ' '
        invariant
            from <= to <= text.len(),
            forall|i: int| from <= i < to ==> text[i] != ' ',
        decreases text.len() - to,
    {
        to += 1;
    }
    proof {
        lemma_field_ends(text@, from as int, to as int);
    }
    to
}

/// The request line that carries `data` under the keyword `message_op`: the
/// keyword, a space, the data and a newline.
pub fn request_line(message_op: &str, data: &str) -> (line: String)
    ensures
        line@ == request_text(message_op@, data@),
{
    let mut line = message_op.to_owned();
    line.append(" ");
    line.append(data);
    line.append("\n");
    line
}

/// What the client prints for the reply line `reply`. A reply that starts
/// with `VALUE` must hold a space.
pub fn reply_output(reply: &str) -> (output: Output)
    requires
        "VALUE"@.is_prefix_of(reply@) ==> has_space(reply@),
    ensures
        output@ == printed_for(reply@),
{
    let chars = chars_of(reply);
    if starts_with(&chars, "VALUE") {
        proof {
            lemma_field_len_bounds(reply@);
        }
        let first = next_space(&chars, 0);
        assert(reply@.skip(0) =~= reply@);
        let second = next_space(&chars, first + 1);
        let field = reply.substring_char(first + 1, second);
        assert(field@ =~= second_field(reply@));
        Output::Stdout(field.to_owned())
    } else if starts_with(&chars, "ERROR") {
        Output::Stderr(reply.to_owned())
    } else {
        Output::Nothing
    }
}

} // verus!
