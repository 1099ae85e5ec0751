//! The job that the pool is fed by a small web server: choosing the answer
//! to one request line and laying the answer out as text.

use vstd::prelude::*;
use vstd::string::StringExecFns;
use vstd::string::StringSliceAdditionalSpecFns;
use vstd::utf8::encode_utf8;

verus! {

/// The status of an answer.
#[derive(Clone, Copy, Debug, PartialEq, Eq, Structural)]
pub enum Status {
    Success,
    NotFound,
}

/// A page that the server can send.
#[derive(Clone, Copy, Debug, PartialEq, Eq, Structural)]
pub enum Page {
    Hello,
    NotFound,
}

/// The answer chosen for a request: its status, the page to send, and how
/// long to hold the answer back.
#[derive(Clone, Copy, Debug, PartialEq, Eq, Structural)]
pub struct Route {
    pub status: Status,
    pub page: Page,
    pub delay_secs: u64,
}

impl Status {
    /// The text of the status line.
    pub open spec fn line_text(self) -> Seq<char> {
        match self {
            Status::Success => "HTTP/1.1 200 OK"@,
            Status::NotFound => "HTTP/1.1 404 NOT FOUND"@,
        }
    }

    /// The status line, without a line end.
    pub fn line(self) -> (line: &'static str)
        ensures
            line@ == self.line_text(),
    {
        match self {
            Status::Success => "HTTP/1.1 200 OK",
            Status::NotFound => "HTTP/1.1 404 NOT FOUND",
        }
    }
}

impl Page {
    /// The name of the file that holds the page.
    pub open spec fn file_text(self) -> Seq<char> {
        match self {
            Page::Hello => "hello.html"@,
            Page::NotFound => "404.html"@,
        }
    }

    /// The name of the file that holds the page.
    pub fn file_name(self) -> (name: &'static str)
        ensures
            name@ == self.file_text(),
    {
        match self {
            Page::Hello => "hello.html",
            Page::NotFound => "404.html",
        }
    }
}

/// The answer to a request line: the root gets the hello page, `/sleep` gets
/// it after five seconds, and everything else gets the not-found page.
pub open spec fn route_of(line: Seq<char>) -> Route {
    if line == "GET / HTTP/1.1"@ {
        Route { status: Status::Success, page: Page::Hello, delay_secs: 0 }
    } else if line == "GET /sleep HTTP/1.1"@ {
        Route { status: Status::Success, page: Page::Hello, delay_secs: 5 }
    } else {
        Route { status: Status::NotFound, page: Page::NotFound, delay_secs: 0 }
    }
}

/// Whether two strings hold the same text.
pub fn same_text(a: &str, b: &str) -> (same: bool)
    ensures
        same == (a@ == b@),
{
    let x = a.as_bytes();
    let y = b.as_bytes();
    proof {
        vstd::utf8::encode_utf8_decode_utf8(a@);
        vstd::utf8::encode_utf8_decode_utf8(b@);
    }
    if x.len() != y.len() {
        return false;
    }
    let mut i: usize = 0;
    while i < x.len()
        invariant
            i <= x@.len(),
            x@.len() == y@.len(),
            x@ == encode_utf8(a@),
            y@ == encode_utf8(b@),
            forall|k: int| 0 <= k < i ==> x@[k] == y@[k],
        decreases x@.len() - i,
    {
        if x[i] != y[i] {
            return false;
        }
        i = i + 1;
    }
    assert(x@ =~= y@);
    true
}

/// Chooses the answer to `request_line`, the first line of a request
/// without its line end.
pub fn route(request_line: &str) -> (route: Route)
    ensures
        route == route_of(request_line@),
{
    if same_text(request_line, "GET / HTTP/1.1") {
        Route { status: Status::Success, page: Page::Hello, delay_secs: 0 }
    } else if same_text(request_line, "GET /sleep HTTP/1.1") {
        Route { status: Status::Success, page: Page::Hello, delay_secs: 5 }
    } else {
        Route { status: Status::NotFound, page: Page::NotFound, delay_secs: 0 }
    }
}

/// The decimal digit for `d`.
pub open spec fn digit_of(d: nat) -> char {
    if d == 0 {
        '0'
    } else if d == 1 {
        '1'
    } else if d == 2 {
        '2'
    } else if d == 3 {
        '3'
    } else if d == 4 {
        '4'
    } else if d == 5 {
        '5'
    } else if d == 6 {
        '6'
    } else if d == 7 {
        '7'
    } else if d == 8 {
        '8'
    } else {
        '9'
    }
}

/// The number `n` in decimal, without leading zeros.
pub open spec fn decimal_of(n: nat) -> Seq<char>
    decreases n,
{
    if n < 10 {
        seq![digit_of(n)]
    } else {
        decimal_of(n / 10).push(digit_of(n % 10))
    }
}

/// The number that a decimal digit stands for.
pub open spec fn digit_value(c: char) -> nat {
    if c == '1' {
        1
    } else if c == '2' {
        2
    } else if c == '3' {
        3
    } else if c == '4' {
        4
    } else if c == '5' {
        5
    } else if c == '6' {
        6
    } else if c == '7' {
        7
    } else if c == '8' {
        8
    } else if c == '9' {
        9
    } else {
        0
    }
}

/// The number that a sequence of decimal digits stands for.
pub open spec fn value_of(digits: Seq<char>) -> nat
    decreases digits.len(),
{
    if digits.len() == 0 {
        0
    } else {
        value_of(digits.drop_last()) * 10 + digit_value(digits.last())
    }
}

/// The decimal form of a number reads back as that number, and has a
/// leading zero only for zero itself.
pub proof fn lemma_decimal_reads_back(n: nat)
    ensures
        value_of(decimal_of(n)) == n,
        decimal_of(n).len() >= 1,
        decimal_of(n)[0] == '0' ==> n == 0,
    decreases n,
{
    if n < 10 {
        assert(seq![digit_of(n)].drop_last() =~= Seq::<char>::empty());
        assert(value_of(Seq::<char>::empty()) == 0);
    } else {
        lemma_decimal_reads_back(n / 10);
        assert(decimal_of(n).drop_last() =~= decimal_of(n / 10));
    }
}

fn digit(d: usize) -> (text: &'static str)
    requires
        d < 10,
    ensures
        text@ == seq![digit_of(d as nat)],
{
    proof {
        reveal_strlit("0");
        reveal_strlit("1");
        reveal_strlit("2");
        reveal_strlit("3");
        reveal_strlit("4");
        reveal_strlit("5");
        reveal_strlit("6");
        reveal_strlit("7");
        reveal_strlit("8");
        reveal_strlit("9");
    }
    let text = match d {
        0 => "0",
        1 => "1",
        2 => "2",
        3 => "3",
        4 => "4",
        5 => "5",
        6 => "6",
        7 => "7",
        8 => "8",
        _ => "9",
    };
    assert(text@ =~= seq![digit_of(d as nat)]);
    text
}

/// Writes `n` in decimal.
pub fn decimal(n: usize) -> (text: String)
    ensures
        text@ == decimal_of(n as nat),
    decreases n,
{
    if n < 10 {
        String::from_str(digit(n))
    } else {
        let mut text = decimal(n / 10);
        text.append(digit(n % 10));
        assert(text@ =~= decimal_of(n as nat));
        text
    }
}

/// The text of an answer: the status line, a `Content-Length` header that
/// gives the length of the body in bytes, an empty line and the body.
pub open spec fn response_of(status: Status, contents: Seq<char>) -> Seq<char> {
    status.line_text() + "\r\nContent-Length: "@ + decimal_of(encode_utf8(contents).len())
        + "\r\n\r\n"@ + contents
}

/// Lays out the answer with `status` whose body is `contents`.
pub fn render(status: Status, contents: &str) -> (response: String)
    ensures
        response@ == response_of(status, contents@),
{
    let length: usize = contents.as_bytes().len();
    let mut response = String::from_str(status.line());
    response.append("\r\nContent-Length: ");
    let digits = decimal(length);
    response.append(digits.as_str());
    response.append("\r\n\r\n");
    response.append(contents);
    assert(response@ =~= response_of(status, contents@));
    response
}

} // verus!
