//! The result rows that every check reports.
//!
//! Each check becomes one Markdown table row,
//! `ROW| `function` | input | `expected` | `got` | mark |`, where the mark
//! tells a passing check from a failing one, together with the message that
//! a failing check is reported with.

use vstd::prelude::*;
use vstd::laws_eq::obeys_concrete_eq;
use vstd::std_specs::cmp::PartialEqSpec;

verus! {

/// The mark that ends a row: a check mark for a pass, a cross for a failure.
pub open spec fn pass_mark(pass: bool) -> Seq<char> {
    if pass {
        "✅"@
    } else {
        "❌"@
    }
}

/// The row `ROW| `func` | input | `expected` | `got` | mark |`.
pub open spec fn row_text(
    func: Seq<char>,
    input: Seq<char>,
    expected: Seq<char>,
    got: Seq<char>,
    pass: bool,
) -> Seq<char> {
    "ROW| `"@ + func + "` | "@ + input + " | `"@ + expected + "` | `"@ + got + "` | "@
        + pass_mark(pass) + " |"@
}

/// The failure message `func [input]: expected <expected>, got <got>`.
pub open spec fn mismatch_text(
    func: Seq<char>,
    input: Seq<char>,
    expected: Seq<char>,
    got: Seq<char>,
) -> Seq<char> {
    func + " ["@ + input + "]: expected "@ + expected + ", got "@ + got
}

/// The failure message of an approximate check,
/// `func [input]: expected ~<expected>, got <got>`.
pub open spec fn approx_mismatch_text(
    func: Seq<char>,
    input: Seq<char>,
    expected: Seq<char>,
    got: Seq<char>,
) -> Seq<char> {
    func + " ["@ + input + "]: expected ~"@ + expected + ", got "@ + got
}

/// The failure message of a boolean check, `func [input]: expected true`.
pub open spec fn expected_true_text(func: Seq<char>, input: Seq<char>) -> Seq<char> {
    func + " ["@ + input + "]: expected true"@
}

/// The outcome of one check: the row to print, the texts it shows, whether
/// the check passed, and the message a failure is reported with.
pub struct Check {
    pub row: String,
    pub expected: String,
    pub got: String,
    pub pass: bool,
    pub message: String,
}

/// Builds the row for one check.
pub fn render_row(func: &str, input: &str, expected: &str, got: &str, pass: bool) -> (r: String)
    ensures
        r@ == row_text(func@, input@, expected@, got@, pass),
{
    let mut s = String::new();
    s.append("ROW| `");
    s.append(func);
    s.append("` | ");
    s.append(input);
    s.append(" | `");
    s.append(expected);
    s.append("` | `");
    s.append(got);
    s.append("` | ");
    if pass {
        s.append("✅");
    } else {
        s.append("❌");
    }
    s.append(" |");
    s
}

/// Builds `func [input]: expected <marker><expected>, got <got>`.
fn render_mismatch(func: &str, input: &str, marker: &str, expected: &str, got: &str) -> (r: String)
    ensures
        r@ == func@ + " ["@ + input@ + marker@ + expected@ + ", got "@ + got@,
{
    let mut s = String::new();
    s.append(func);
    s.append(" [");
    s.append(input);
    s.append(marker);
    s.append(expected);
    s.append(", got ");
    s.append(got);
    s
}

/// Free-form check with the expected and the got text given and a pass
/// that the caller decided.
pub fn ok(func: &str, input: &str, expected: &str, got: &str, pass: bool) -> (c: Check)
    ensures
        c.pass == pass,
        c.expected@ == expected@,
        c.got@ == got@,
        c.row@ == row_text(func@, input@, expected@, got@, pass),
        c.message@ == mismatch_text(func@, input@, expected@, got@),
{
    let row = render_row(func, input, expected, got, pass);
    let message = render_mismatch(func, input, "]: expected ", expected, got);
    Check {
        row,
        expected: String::from_str(expected),
        got: String::from_str(got),
        pass,
        message,
    }
}

/// Boolean check: the row expects `true` and shows what came.
pub fn is_true(func: &str, input: &str, got: bool) -> (c: Check)
    ensures
        c.pass == got,
        c.expected@ == "true"@,
        c.got@ == (if got { "true"@ } else { "false"@ }),
        c.row@ == row_text(func@, input@, c.expected@, c.got@, got),
        c.message@ == expected_true_text(func@, input@),
{
    let got_text = if got {
        "true"
    } else {
        "false"
    };
    let row = render_row(func, input, "true", got_text, got);
    let mut message = String::new();
    message.append(func);
    message.append(" [");
    message.append(input);
    message.append("]: expected true");
    Check {
        row,
        expected: String::from_str("true"),
        got: String::from_str(got_text),
        pass: got,
        message,
    }
}

/// Approximate check: the caller decided whether the value it got is close
/// enough to the one it expected, and hands over both as the texts to show.
pub fn approx(func: &str, input: &str, expected: &str, got: &str, pass: bool) -> (c: Check)
    ensures
        c.pass == pass,
        c.expected@ == expected@,
        c.got@ == got@,
        c.row@ == row_text(func@, input@, expected@, got@, pass),
        c.message@ == approx_mismatch_text(func@, input@, expected@, got@),
{
    let row = render_row(func, input, expected, got, pass);
    let message = render_mismatch(func, input, "]: expected ~", expected, got);
    Check {
        row,
        expected: String::from_str(expected),
        got: String::from_str(got),
        pass,
        message,
    }
}

/// An approximate check with an empty input column, for checks whose row
/// needs nothing but the expected and the got text.
pub fn chk(func: &str, expected: &str, got: &str, pass: bool) -> (c: Check)
    ensures
        c.pass == pass,
        c.expected@ == expected@,
        c.got@ == got@,
        c.row@ == row_text(func@, ""@, expected@, got@, pass),
        c.message@ == approx_mismatch_text(func@, ""@, expected@, got@),
{
    approx(func, "", expected, got, pass)
}

/// Exact check: passes when `expected == got`. The row and the message show
/// `expected_text` and `got_text`, the texts the caller rendered the two
/// values as.
pub fn eq<T: PartialEq>(
    func: &str,
    input: &str,
    expected: T,
    got: T,
    expected_text: &str,
    got_text: &str,
) -> (c: Check)
    ensures
        T::obeys_eq_spec() ==> c.pass == expected.eq_spec(&got),
        obeys_concrete_eq::<T>() ==> (c.pass <==> expected == got),
        c.expected@ == expected_text@,
        c.got@ == got_text@,
        c.row@ == row_text(func@, input@, expected_text@, got_text@, c.pass),
        c.message@ == mismatch_text(func@, input@, expected_text@, got_text@),
{
    let pass = expected == got;
    proof {
        reveal(obeys_concrete_eq);
    }
    let row = render_row(func, input, expected_text, got_text, pass);
    let message = render_mismatch(func, input, "]: expected ", expected_text, got_text);
    Check {
        row,
        expected: String::from_str(expected_text),
        got: String::from_str(got_text),
        pass,
        message,
    }
}

/// A row can be read back column by column: it is `ROW| ` and a backtick,
/// then the function text whole, then a backtick and ` | `, the input text
/// whole, ` | ` and a backtick, the expected text whole, a backtick, ` | `
/// and a backtick, the got text whole, a backtick and ` | `, the mark
/// (check mark for a pass, cross for a failure), and ` |`. Nothing else is
/// in it, so its length is 26 plus the lengths of the four texts.
pub proof fn lemma_row_columns(
    func: Seq<char>,
    input: Seq<char>,
    expected: Seq<char>,
    got: Seq<char>,
    pass: bool,
)
    ensures
        ({
            let r = row_text(func, input, expected, got, pass);
            let of = 6int;
            let oi = of + func.len() + 4;
            let oe = oi + input.len() + 4;
            let og = oe + expected.len() + 5;
            let om = og + got.len() + 4;
            &&& r.len() == 26 + func.len() + input.len() + expected.len() + got.len()
            &&& r.subrange(0, of) == seq!['R', 'O', 'W', '|', ' ', '`']
            &&& r.subrange(of, of + func.len()) == func
            &&& r.subrange(of + func.len(), oi) == seq!['`', ' ', '|', ' ']
            &&& r.subrange(oi, oi + input.len()) == input
            &&& r.subrange(oi + input.len(), oe) == seq![' ', '|', ' ', '`']
            &&& r.subrange(oe, oe + expected.len()) == expected
            &&& r.subrange(oe + expected.len(), og) == seq!['`', ' ', '|', ' ', '`']
            &&& r.subrange(og, og + got.len()) == got
            &&& r.subrange(og + got.len(), om) == seq!['`', ' ', '|', ' ']
            &&& r[om] == (if pass { '✅' } else { '❌' })
            &&& r.subrange(om + 1, r.len() as int) == seq![' ', '|']
        }),
{
    reveal_strlit("ROW| `");
    reveal_strlit("` | ");
    reveal_strlit(" | `");
    reveal_strlit("` | `");
    reveal_strlit("✅");
    reveal_strlit("❌");
    reveal_strlit(" |");
    let r = row_text(func, input, expected, got, pass);
    let p1 = "ROW| `"@ + func;
    let p2 = p1 + "` | "@;
    let p3 = p2 + input;
    let p4 = p3 + " | `"@;
    let p5 = p4 + expected;
    let p6 = p5 + "` | `"@;
    let p7 = p6 + got;
    let p8 = p7 + "` | "@;
    let p9 = p8 + pass_mark(pass);
    assert(r == p9 + " |"@);
    assert(r.subrange(0, p1.len() as int) =~= p1);
    assert(r.subrange(0, p2.len() as int) =~= p2);
    assert(r.subrange(0, p3.len() as int) =~= p3);
    assert(r.subrange(0, p4.len() as int) =~= p4);
    assert(r.subrange(0, p5.len() as int) =~= p5);
    assert(r.subrange(0, p6.len() as int) =~= p6);
    assert(r.subrange(0, p7.len() as int) =~= p7);
    assert(r.subrange(0, p8.len() as int) =~= p8);
    assert(r.subrange(0, 6) =~= p1.subrange(0, 6));
    assert(r.subrange(6, 6 + func.len() as int) =~= p1.subrange(6, p1.len() as int));
    assert(r.subrange(p1.len() as int, p2.len() as int) =~= p2.subrange(
        p1.len() as int,
        p2.len() as int,
    ));
    assert(r.subrange(p2.len() as int, p3.len() as int) =~= p3.subrange(
        p2.len() as int,
        p3.len() as int,
    ));
    assert(r.subrange(p3.len() as int, p4.len() as int) =~= p4.subrange(
        p3.len() as int,
        p4.len() as int,
    ));
    assert(r.subrange(p4.len() as int, p5.len() as int) =~= p5.subrange(
        p4.len() as int,
        p5.len() as int,
    ));
    assert(r.subrange(p5.len() as int, p6.len() as int) =~= p6.subrange(
        p5.len() as int,
        p6.len() as int,
    ));
    assert(r.subrange(p6.len() as int, p7.len() as int) =~= p7.subrange(
        p6.len() as int,
        p7.len() as int,
    ));
    assert(r.subrange(p7.len() as int, p8.len() as int) =~= p8.subrange(
        p7.len() as int,
        p8.len() as int,
    ));
    assert(r[p8.len() as int] == p9[p8.len() as int]);
    assert(r.subrange(p9.len() as int, r.len() as int) =~= " |"@);
}

/// A failure message can be read back: the function text whole, ` [`, the
/// input text whole, `]: expected ` (with a `~` after it for an approximate
/// check), the expected text whole, `, got `, and the got text whole.
pub proof fn lemma_message_columns(
    func: Seq<char>,
    input: Seq<char>,
    expected: Seq<char>,
    got: Seq<char>,
    approximate: bool,
)
    ensures
        ({
            let m = if approximate {
                approx_mismatch_text(func, input, expected, got)
            } else {
                mismatch_text(func, input, expected, got)
            };
            let tilde: int = if approximate { 1 } else { 0 };
            let oi = func.len() + 2int;
            let oe = oi + input.len() + 12 + tilde;
            let og = oe + expected.len() + 6;
            &&& m.len() == 20 + tilde + func.len() + input.len() + expected.len() + got.len()
            &&& m.subrange(0, func.len() as int) == func
            &&& m.subrange(func.len() as int, oi) == seq![' ', '[']
            &&& m.subrange(oi, oi + input.len()) == input
            &&& m.subrange(oi + input.len(), oi + input.len() + 12) == seq![
                ']',
                ':',
                ' ',
                'e',
                'x',
                'p',
                'e',
                'c',
                't',
                'e',
                'd',
                ' ',
            ]
            &&& (approximate ==> m[oi + input.len() + 12] == '~')
            &&& m.subrange(oe, oe + expected.len()) == expected
            &&& m.subrange(oe + expected.len(), og) == seq![',', ' ', 'g', 'o', 't', ' ']
            &&& m.subrange(og, m.len() as int) == got
        }),
{
    reveal_strlit(" [");
    reveal_strlit("]: expected ");
    reveal_strlit("]: expected ~");
    reveal_strlit(", got ");
    let marker = if approximate {
        "]: expected ~"@
    } else {
        "]: expected "@
    };
    let m = if approximate {
        approx_mismatch_text(func, input, expected, got)
    } else {
        mismatch_text(func, input, expected, got)
    };
    let p1 = func + " ["@;
    let p2 = p1 + input;
    let p3 = p2 + marker;
    let p4 = p3 + expected;
    let p5 = p4 + ", got "@;
    assert(m == p5 + got);
    assert(m.subrange(0, p1.len() as int) =~= p1);
    assert(m.subrange(0, p2.len() as int) =~= p2);
    assert(m.subrange(0, p3.len() as int) =~= p3);
    assert(m.subrange(0, p4.len() as int) =~= p4);
    assert(m.subrange(0, p5.len() as int) =~= p5);
    assert(m.subrange(0, func.len() as int) =~= p1.subrange(0, func.len() as int));
    assert(m.subrange(func.len() as int, p1.len() as int) =~= p1.subrange(
        func.len() as int,
        p1.len() as int,
    ));
    assert(m.subrange(p1.len() as int, p2.len() as int) =~= p2.subrange(
        p1.len() as int,
        p2.len() as int,
    ));
    assert(m.subrange(p2.len() as int, p2.len() + 12int) =~= p3.subrange(
        p2.len() as int,
        p2.len() + 12int,
    ));
    assert(m.subrange(p3.len() as int, p4.len() as int) =~= p4.subrange(
        p3.len() as int,
        p4.len() as int,
    ));
    assert(m.subrange(p4.len() as int, p5.len() as int) =~= p5.subrange(
        p4.len() as int,
        p5.len() as int,
    ));
    assert(m.subrange(p5.len() as int, m.len() as int) =~= got);
    if approximate {
        assert(m[p2.len() + 12int] == p3[p2.len() + 12int]);
    }
}

/// The message of a failed boolean check reads back as the function text
/// whole, ` [`, the input text whole, and `]: expected true`.
pub proof fn lemma_expected_true_columns(func: Seq<char>, input: Seq<char>)
    ensures
        ({
            let m = expected_true_text(func, input);
            &&& m.len() == func.len() + input.len() + 18
            &&& m.subrange(0, func.len() as int) == func
            &&& m.subrange(func.len() as int, func.len() + 2int) == seq![' ', '[']
            &&& m.subrange(func.len() + 2int, func.len() + 2int + input.len()) == input
            &&& m.subrange(func.len() + 2int + input.len(), m.len() as int) == seq![
                ']',
                ':',
                ' ',
                'e',
                'x',
                'p',
                'e',
                'c',
                't',
                'e',
                'd',
                ' ',
                't',
                'r',
                'u',
                'e',
            ]
        }),
{
    reveal_strlit(" [");
    reveal_strlit("]: expected true");
    let m = expected_true_text(func, input);
    let p1 = func + " ["@;
    let p2 = p1 + input;
    assert(m == p2 + "]: expected true"@);
    assert(m.subrange(0, p1.len() as int) =~= p1);
    assert(m.subrange(0, p2.len() as int) =~= p2);
    assert(m.subrange(0, func.len() as int) =~= func);
    assert(m.subrange(func.len() as int, p1.len() as int) =~= " ["@);
    assert(m.subrange(p1.len() as int, p2.len() as int) =~= input);
    assert(m.subrange(p2.len() as int, m.len() as int) =~= "]: expected true"@);
}

/// A passing check and a failing check never produce the same row: the
/// row alone tells whether the check passed.
pub proof fn lemma_row_tells_pass(
    func: Seq<char>,
    input: Seq<char>,
    expected: Seq<char>,
    got: Seq<char>,
)
    ensures
        row_text(func, input, expected, got, true) != row_text(func, input, expected, got, false),
{
    reveal_strlit("✅");
    reveal_strlit("❌");
    reveal_strlit(" |");
    let head = "ROW| `"@ + func + "` | "@ + input + " | `"@ + expected + "` | `"@ + got + "` | "@;
    let yes = row_text(func, input, expected, got, true);
    let no = row_text(func, input, expected, got, false);
    assert(yes == head + "✅"@ + " |"@);
    assert(no == head + "❌"@ + " |"@);
    assert(yes[head.len() as int] == '✅');
    assert(no[head.len() as int] == '❌');
}

} // verus!
