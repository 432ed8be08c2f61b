//! The report of what is wrong with the programs of a save file.

use crate::parse::{error_models, ErrorModel, ProgramErrors};
use crate::save::{error_lists, save_errors_get, save_errors_keys, SaveErrors};
use crate::text::{push_char, texts};
use vstd::prelude::*;
use vstd::string::StringExecFns;

verus! {

/// The character for a digit.
pub open spec fn digit_char(d: int) -> char {
    if d == 0 {
        '0'
    } else if d == 1 {
        '1'
    } else if d == 2 {
        '2'
    } else if d == 3 {
        '3'
    } else if d == 4 {
        '4'
    } else if d == 5 {
        '5'
    } else if d == 6 {
        '6'
    } else if d == 7 {
        '7'
    } else if d == 8 {
        '8'
    } else {
        '9'
    }
}

/// A number in decimal digits, without leading zeros.
pub open spec fn spec_decimal(n: nat) -> Seq<char>
    decreases n,
{
    if n < 10 {
        seq![digit_char(n as int)]
    } else {
        spec_decimal(n / 10).push(digit_char((n % 10) as int))
    }
}

/// Returns the character for the digit `d`.
fn digit(d: usize) -> (c: char)
    requires
        d < 10,
    ensures
        c == digit_char(d as int),
{
    if d == 0 {
        '0'
    } else if d == 1 {
        '1'
    } else if d == 2 {
        '2'
    } else if d == 3 {
        '3'
    } else if d == 4 {
        '4'
    } else if d == 5 {
        '5'
    } else if d == 6 {
        '6'
    } else if d == 7 {
        '7'
    } else if d == 8 {
        '8'
    } else {
        '9'
    }
}

/// Writes a number in decimal digits.
pub fn decimal(n: usize) -> (r: String)
    ensures
        r@ == spec_decimal(n as nat),
{
    // The digits, the last one first.
    let mut digits: Vec<char> = Vec::new();
    let mut rest = n;
    while rest >= 10
        invariant
            spec_decimal(n as nat) == spec_decimal(rest as nat) + digits@.reverse(),
        decreases rest,
    {
        let d = digit(rest % 10);
        let ghost before = digits@;
        digits.push(d);
        assert(digits@.reverse() =~= seq![d] + before.reverse());
        assert(spec_decimal(rest as nat) == spec_decimal((rest / 10) as nat).push(d));
        assert(spec_decimal((rest / 10) as nat).push(d) + before.reverse() =~= spec_decimal(
            (rest / 10) as nat,
        ) + (seq![d] + before.reverse()));
        rest = rest / 10;
    }
    let mut out = String::new();
    push_char(&mut out, digit(rest));
    let mut i = digits.len();
    while i > 0
        invariant
            i <= digits.len(),
            out@ == spec_decimal(rest as nat) + digits@.reverse().take(digits@.len() - i),
        decreases i,
    {
        i -= 1;
        push_char(&mut out, digits[i]);
        assert(digits@.reverse().take(digits@.len() - i) =~= digits@.reverse().take(
            digits@.len() - i - 1,
        ).push(digits@[i as int]));
    }
    assert(digits@.reverse().take(digits@.len() as int) =~= digits@.reverse());
    out
}

/// The line that reports one error of the program of node `node`: the
/// words for node and line, each with its number, the error in words, and a
/// line feed.
pub open spec fn spec_error_line(
    node_word: Seq<char>,
    line_word: Seq<char>,
    node: usize,
    line: usize,
    error: ErrorModel,
) -> Seq<char> {
    node_word + " "@ + spec_decimal(node as nat) + ": "@ + line_word + " "@ + spec_decimal(
        line as nat,
    ) + ": "@ + error.message() + "\n"@
}

/// The lines that report the errors of the program of node `node`, one for
/// each error, in their order.
pub open spec fn spec_error_lines(
    node_word: Seq<char>,
    line_word: Seq<char>,
    node: usize,
    errors: Seq<(usize, ErrorModel)>,
) -> Seq<Seq<char>> {
    Seq::new(
        errors.len(),
        |i: int| spec_error_line(node_word, line_word, node, errors[i].0, errors[i].1),
    )
}

/// Writes the lines that report the errors of the program of one node.
pub fn error_lines(node_word: &str, line_word: &str, node: usize, errors: &ProgramErrors) -> (r:
    Vec<String>)
    ensures
        texts(r@) == spec_error_lines(node_word@, line_word@, node, error_models(errors@)),
{
    let mut lines: Vec<String> = Vec::new();
    let mut i: usize = 0;
    while i < errors.len()
        invariant
            i <= errors.len(),
            texts(lines@) == spec_error_lines(
                node_word@,
                line_word@,
                node,
                error_models(errors@),
            ).take(i as int),
        decreases errors.len() - i,
    {
        let mut line = node_word.to_owned();
        line.append(" ");
        line.append(decimal(node).as_str());
        line.append(": ");
        line.append(line_word);
        line.append(" ");
        line.append(decimal(errors[i].0).as_str());
        line.append(": ");
        line.append(errors[i].1.message().as_str());
        line.append("\n");
        let ghost all = spec_error_lines(node_word@, line_word@, node, error_models(errors@));
        assert(line@ == all[i as int]);
        let ghost had = lines@;
        let ghost text = line@;
        lines.push(line);
        assert(texts(lines@) =~= texts(had).push(text));
        assert(texts(lines@) =~= all.take(i + 1));
        i += 1;
    }
    assert(spec_error_lines(node_word@, line_word@, node, error_models(errors@)).take(
        errors@.len() as int,
    ) =~= spec_error_lines(node_word@, line_word@, node, error_models(errors@)));
    lines
}

/// The lines that report the errors of the programs of the nodes below
/// `bound`: node after node in ascending order, and for each node its
/// errors in their order.
pub open spec fn report_below(
    node_word: Seq<char>,
    line_word: Seq<char>,
    errors: Map<usize, Seq<(usize, ErrorModel)>>,
    bound: nat,
) -> Seq<Seq<char>>
    decreases bound,
{
    if bound == 0 {
        Seq::empty()
    } else {
        let node = (bound - 1) as usize;
        report_below(node_word, line_word, errors, (bound - 1) as nat) + (if bound - 1
            <= usize::MAX && errors.contains_key(node) {
            spec_error_lines(node_word, line_word, node, errors[node])
        } else {
            Seq::empty()
        })
    }
}

/// Nodes without errors add nothing to the report.
proof fn lemma_report_gap(
    node_word: Seq<char>,
    line_word: Seq<char>,
    errors: Map<usize, Seq<(usize, ErrorModel)>>,
    lo: nat,
    hi: nat,
)
    requires
        lo <= hi,
        forall|k: usize| lo <= k < hi ==> !errors.contains_key(k),
    ensures
        report_below(node_word, line_word, errors, hi) == report_below(
            node_word,
            line_word,
            errors,
            lo,
        ),
    decreases hi - lo,
{
    if lo < hi {
        lemma_report_gap(node_word, line_word, errors, lo, (hi - 1) as nat);
        let node = (hi - 1) as usize;
        if hi - 1 <= usize::MAX {
            assert(!errors.contains_key(node));
        }
        assert(report_below(node_word, line_word, errors, (hi - 1) as nat) + Seq::<
            Seq<char>,
        >::empty() =~= report_below(node_word, line_word, errors, (hi - 1) as nat));
    }
}

/// Writes the report of the errors in the programs of a save file: one line
/// for each error, node after node in ascending order. `node_word` and
/// `line_word` are the words that stand before the numbers.
pub fn report(save_errors: &SaveErrors, node_word: &str, line_word: &str) -> (r: Vec<String>)
    ensures
        forall|bound: nat|
            (forall|k: usize| error_lists(*save_errors).contains_key(k) ==> k < bound)
                ==> texts(r@) == #[trigger] report_below(
                node_word@,
                line_word@,
                error_lists(*save_errors),
                bound,
            ),
{
    let keys = save_errors_keys(save_errors);
    let ghost errors = error_lists(*save_errors);
    let ghost nw = node_word@;
    let ghost lw = line_word@;
    let mut lines: Vec<String> = Vec::new();
    let ghost mut done: nat = 0;
    let mut i: usize = 0;
    while i < keys.len()
        invariant
            i <= keys.len(),
            errors == error_lists(*save_errors),
            nw == node_word@,
            lw == line_word@,
            forall|a: int| 0 <= a < keys@.len() ==> errors.contains_key(#[trigger] keys@[a]),
            forall|a: int, b: int| 0 <= a < b < keys@.len() ==> keys@[a] < keys@[b],
            forall|k: usize|
                errors.contains_key(k) ==> exists|a: int|
                    0 <= a < keys@.len() && #[trigger] keys@[a] == k,
            done == (if i == 0 {
                0nat
            } else {
                (keys@[i - 1] + 1) as nat
            }),
            texts(lines@) == report_below(nw, lw, errors, done),
        decreases keys.len() - i,
    {
        let node = keys[i];
        proof {
            assert forall|k: usize| done <= k < node implies !errors.contains_key(k) by {
                if errors.contains_key(k) {
                    let a = choose|a: int| 0 <= a < keys@.len() && #[trigger] keys@[a] == k;
                    if a < i {
                        if a < i - 1 {
                            assert(keys@[a] < keys@[i - 1]);
                        }
                    } else if a > i {
                        assert(keys@[i as int] < keys@[a]);
                    }
                }
            }
            if i > 0 {
                assert(keys@[i - 1] < keys@[i as int]);
            }
            lemma_report_gap(nw, lw, errors, done, node as nat);
        }
        let ghost before = lines@;
        assert(errors.contains_key(node));
        if let Some(list) = save_errors_get(save_errors, node) {
            let mut more = error_lines(node_word, line_word, node, list);
            let ghost added = more@;
            lines.append(&mut more);
            assert(texts(lines@) =~= texts(before) + texts(added));
        }
        proof {
            done = (node + 1) as nat;
        }
        i += 1;
    }
    proof {
        assert forall|bound: nat|
            (forall|k: usize| errors.contains_key(k) ==> k < bound) implies texts(lines@)
            == #[trigger] report_below(nw, lw, errors, bound) by {
            if i > 0 {
                assert(errors.contains_key(keys@[i - 1]));
            }
            assert forall|k: usize| done <= k < bound implies !errors.contains_key(k) by {
                if errors.contains_key(k) {
                    let a = choose|a: int| 0 <= a < keys@.len() && #[trigger] keys@[a] == k;
                    if a < i - 1 {
                        assert(keys@[a] < keys@[i - 1]);
                    }
                }
            }
            lemma_report_gap(nw, lw, errors, done, bound);
        }
    }
    lines
}

/// Writes the report of the errors in the programs of a save file, with
/// `node` and `line` before the numbers.
pub fn pretty_print_save_errors(save_errors: &SaveErrors) -> (r: Vec<String>)
    ensures
        forall|bound: nat|
            (forall|k: usize| error_lists(*save_errors).contains_key(k) ==> k < bound)
                ==> texts(r@) == #[trigger] report_below(
                "node"@,
                "line"@,
                error_lists(*save_errors),
                bound,
            ),
{
    report(save_errors, "node", "line")
}

} // verus!
