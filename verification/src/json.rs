//! The pieces of JSON text that the event lines are made of.

use vstd::prelude::*;
use vstd::string::*;

verus! {

/// The error type of `serde_json`. Nothing inside it is visible here.
#[verifier::external_type_specification]
#[verifier::external_body]
pub struct ExJsonError(serde_json::Error);

/// The JSON string literal that `serde_json` writes for a text: the text in
/// double quotes, with quotes, backslashes and control characters escaped. It
/// is a function of the text alone.
pub uninterp spec fn json_string(s: Seq<char>) -> Seq<char>;

/// Calls `serde_json::to_string` on a string slice. Believed: the call
/// succeeds, since a string slice is written straight into a byte vector; the
/// result is the JSON string literal of the argument, which the contract only
/// names; and no line feed occurs in it, since the writer escapes every
/// control character.
#[verifier::external_body]
pub(crate) fn to_json_string(s: &str) -> (r: Result<String, serde_json::Error>)
    ensures
        r is Ok,
        r->Ok_0@ == json_string(s@),
        forall|i: int| 0 <= i < r->Ok_0@.len() ==> r->Ok_0@[i] != '\n',
{
    serde_json::to_string(s)
}

/// No line feed occurs in the text.
pub open spec fn no_line_feed(s: Seq<char>) -> bool {
    forall|i: int| 0 <= i < s.len() ==> s[i] != '\n'
}

/// Appends `part` to `out`.
pub fn push_text(out: &mut String, part: &str)
    ensures
        final(out)@ == old(out)@ + part@,
        no_line_feed(old(out)@) && no_line_feed(part@) ==> no_line_feed(final(out)@),
{
    out.append(part);
}

/// The JSON string literal for `s`.
pub fn quote(s: &str) -> (r: String)
    ensures
        r@ == json_string(s@),
        no_line_feed(r@),
{
    match to_json_string(s) {
        Ok(text) => text,
        Err(_) => String::new(),
    }
}

/// The numeral of one decimal digit.
pub open spec fn digit(d: nat) -> Seq<char> {
    if d == 0 {
        "0"@
    } else if d == 1 {
        "1"@
    } else if d == 2 {
        "2"@
    } else if d == 3 {
        "3"@
    } else if d == 4 {
        "4"@
    } else if d == 5 {
        "5"@
    } else if d == 6 {
        "6"@
    } else if d == 7 {
        "7"@
    } else if d == 8 {
        "8"@
    } else {
        "9"@
    }
}

/// The decimal numeral of `n`, without sign or leading zeros.
pub open spec fn decimal(n: nat) -> Seq<char>
    decreases n,
{
    if n < 10 {
        digit(n)
    } else {
        decimal(n / 10) + digit(n % 10)
    }
}

/// A decimal numeral holds digits only, so no line feed.
pub proof fn lemma_decimal_no_line_feed(n: nat)
    ensures
        no_line_feed(decimal(n)),
    decreases n,
{
    reveal_strlit("0");
    reveal_strlit("1");
    reveal_strlit("2");
    reveal_strlit("3");
    reveal_strlit("4");
    reveal_strlit("5");
    reveal_strlit("6");
    reveal_strlit("7");
    reveal_strlit("8");
    reveal_strlit("9");
    if n < 10 {
        assert(no_line_feed(digit(n)));
    } else {
        lemma_decimal_no_line_feed(n / 10);
        assert(no_line_feed(digit(n % 10)));
    }
}

fn digit_text(d: u64) -> (r: &'static str)
    requires
        d < 10,
    ensures
        r@ == digit(d as nat),
{
    if d == 0 {
        "0"
    } else if d == 1 {
        "1"
    } else if d == 2 {
        "2"
    } else if d == 3 {
        "3"
    } else if d == 4 {
        "4"
    } else if d == 5 {
        "5"
    } else if d == 6 {
        "6"
    } else if d == 7 {
        "7"
    } else if d == 8 {
        "8"
    } else {
        "9"
    }
}

/// Writes `n` as a decimal numeral, which is how JSON spells an unsigned
/// integer.
pub fn number(n: u64) -> (r: String)
    ensures
        r@ == decimal(n as nat),
        no_line_feed(r@),
    decreases n,
{
    proof {
        lemma_decimal_no_line_feed(n as nat);
    }
    if n < 10 {
        String::from_str(digit_text(n))
    } else {
        let head = number(n / 10);
        head.concat(digit_text(n % 10))
    }
}

} // verus!
