//! The texts that the relay composes, and equality of texts.

use vstd::prelude::*;
use vstd::string::*;
use vstd::utf8::*;

verus! {

/// The characters of each of `lines`, in order.
pub open spec fn texts(lines: Seq<String>) -> Seq<Seq<char>> {
    lines.map_values(|line: String| line@)
}

/// The display name of a connection that chose none.
pub open spec fn placeholder_name() -> Seq<char> {
    seq!['A', 'n', 'o', 'n', 'y', 'm', 'o', 'u', 's']
}

/// The line that precedes a replay of the history.
pub open spec fn history_header() -> Seq<char> {
    seq!['H', 'i', 's', 't', 'o', 'r', 'y', ':', '\n']
}

/// What opens a welcome, up to the name.
pub open spec fn welcome_prefix() -> Seq<char> {
    seq![
        'W', 'e', 'l', 'c', 'o', 'm', 'e', ' ', 't', 'o', ' ', 't', 'h', 'e', ' ', 'c', 'h', 'a',
        't', ',', ' ',
    ]
}

/// The welcome sent to a connection named `name`.
pub open spec fn welcome(name: Seq<char>) -> Seq<char> {
    welcome_prefix() + name + seq!['!']
}

/// The character of the decimal digit `d`.
pub open spec fn digit(d: nat) -> char {
    if d == 0 {
        '0'
    } else if d == 1 {
        '1'
    } else if d == 2 {
        '2'
    } else if d == 3 {
        '3'
    } else if d == 4 {
        '4'
    } else if d == 5 {
        '5'
    } else if d == 6 {
        '6'
    } else if d == 7 {
        '7'
    } else if d == 8 {
        '8'
    } else {
        '9'
    }
}

/// `n` in decimal, most significant digit first, without leading zeros.
pub open spec fn decimal(n: nat) -> Seq<char>
    decreases n,
{
    if n < 10 {
        seq![digit(n)]
    } else {
        decimal(n / 10).push(digit(n % 10))
    }
}

/// A broadcast as its recipients see it: the sender's identifier in
/// decimal between `<User#` and `>: `, then the text as it was sent.
pub open spec fn rendered(sender_id: usize, text: Seq<char>) -> Seq<char> {
    seq!['<', 'U', 's', 'e', 'r', '#'] + decimal(sender_id as nat) + seq!['>', ':', ' '] + text
}

/// Whether two texts hold the same characters.
pub fn same_text(a: &str, b: &str) -> (same: bool)
    ensures
        same == (a@ == b@),
{
    let x = a.as_bytes();
    let y = b.as_bytes();
    proof {
        encode_utf8_decode_utf8(a@);
        encode_utf8_decode_utf8(b@);
    }
    if x.len() != y.len() {
        return false;
    }
    let mut i: usize = 0;
    while i < x.len()
        invariant
            x@.len() == y@.len(),
            i <= x@.len(),
            forall|j: int| 0 <= j < i ==> x@[j] == y@[j],
            x@ == a.spec_bytes(),
            y@ == b.spec_bytes(),
            decode_utf8(a.spec_bytes()) == a@,
            decode_utf8(b.spec_bytes()) == b@,
        decreases x@.len() - i,
    {
        if x[i] != y[i] {
            return false;
        }
        i += 1;
    }
    assert(x@ =~= y@);
    true
}

/// The placeholder name as an owned text.
pub fn placeholder() -> (name: String)
    ensures
        name@ == placeholder_name(),
{
    proof {
        reveal_strlit("Anonymous");
    }
    let name = "Anonymous".to_owned();
    assert(name@ =~= placeholder_name());
    name
}

/// The history header as an owned text.
pub fn header_line() -> (line: String)
    ensures
        line@ == history_header(),
{
    proof {
        reveal_strlit("History:\n");
    }
    let line = "History:\n".to_owned();
    assert(line@ =~= history_header());
    line
}

/// The welcome for a connection named `name`.
pub fn welcome_line(name: &str) -> (line: String)
    ensures
        line@ == welcome(name@),
{
    proof {
        reveal_strlit("Welcome to the chat, ");
        reveal_strlit("!");
    }
    let mut line = "Welcome to the chat, ".to_owned();
    assert(line@ =~= welcome_prefix());
    line.append(name);
    line.append("!");
    assert(line@ =~= welcome(name@));
    line
}

fn digit_text(d: usize) -> (text: &'static str)
    requires
        d < 10,
    ensures
        text@ == seq![digit(d as nat)],
{
    proof {
        reveal_strlit("0");
        reveal_strlit("1");
        reveal_strlit("2");
        reveal_strlit("3");
        reveal_strlit("4");
        reveal_strlit("5");
        reveal_strlit("6");
        reveal_strlit("7");
        reveal_strlit("8");
        reveal_strlit("9");
    }
    let text = if d == 0 {
        "0"
    } else if d == 1 {
        "1"
    } else if d == 2 {
        "2"
    } else if d == 3 {
        "3"
    } else if d == 4 {
        "4"
    } else if d == 5 {
        "5"
    } else if d == 6 {
        "6"
    } else if d == 7 {
        "7"
    } else if d == 8 {
        "8"
    } else {
        "9"
    };
    assert(text@ =~= seq![digit(d as nat)]);
    text
}

fn append_decimal(out: &mut String, n: usize)
    ensures
        final(out)@ == old(out)@ + decimal(n as nat),
    decreases n,
{
    if n >= 10 {
        append_decimal(out, n / 10);
    }
    out.append(digit_text(n % 10));
    assert(final(out)@ =~= old(out)@ + decimal(n as nat));
}

/// Composes the broadcast of `text` by the connection `sender_id`.
pub fn render(sender_id: usize, text: &str) -> (message: String)
    ensures
        message@ == rendered(sender_id, text@),
{
    proof {
        reveal_strlit("<User#");
        reveal_strlit(">: ");
    }
    let mut message = "<User#".to_owned();
    append_decimal(&mut message, sender_id);
    message.append(">: ");
    message.append(text);
    assert(message@ =~= rendered(sender_id, text@));
    message
}

} // verus!
