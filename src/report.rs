//! Text that a run produces besides the document: the output file's name and
//! the line that compares sizes.
use vstd::prelude::*;

verus! {

/// The decimal digit for `d` (below ten).
pub open spec fn digit_char(d: nat) -> char {
    if d == 0 {
        '0'
    } else if d == 1 {
        '1'
    } else if d == 2 {
        '2'
    } else if d == 3 {
        '3'
    } else if d == 4 {
        '4'
    } else if d == 5 {
        '5'
    } else if d == 6 {
        '6'
    } else if d == 7 {
        '7'
    } else if d == 8 {
        '8'
    } else {
        '9'
    }
}

/// `n` in decimal, without leading zeros.
pub open spec fn decimal_of(n: nat) -> Seq<char>
    decreases n,
{
    if n < 10 {
        seq![digit_char(n)]
    } else {
        decimal_of(n / 10).push(digit_char(n % 10))
    }
}

/// `m` (below a hundred) as exactly two digits.
pub open spec fn two_digits(m: nat) -> Seq<char> {
    seq![digit_char(m / 10), digit_char(m % 10)]
}

/// `after` as a share of `before`, in hundredths of a percent, rounded to
/// the nearest (halves up).
pub open spec fn hundredths(before: nat, after: nat) -> nat
    recommends
        before > 0,
{
    (2 * 10000 * after + before) / (2 * before)
}

/// The percentage with two decimals; with nothing before it is `inf`, or
/// `NaN` where there is nothing after either.
pub open spec fn percent_text(before: nat, after: nat) -> Seq<char> {
    if before == 0 {
        if after == 0 {
            seq!['N', 'a', 'N']
        } else {
            seq!['i', 'n', 'f']
        }
    } else {
        decimal_of(hundredths(before, after) / 100) + seq!['.'] + two_digits(
            hundredths(before, after) % 100,
        )
    }
}

/// `size: <before> -> <after> ( <percent>% )`.
pub open spec fn size_line(before: nat, after: nat) -> Seq<char> {
    seq!['s', 'i', 'z', 'e', ':', ' '] + decimal_of(before) + seq![' ', '-', '>', ' ']
        + decimal_of(after) + seq![' ', '(', ' '] + percent_text(before, after) + seq![
        '%',
        ' ',
        ')',
    ]
}

/// `<stem>-<timestamp>.json`.
pub open spec fn output_name(stem: Seq<char>, timestamp: nat) -> Seq<char> {
    stem + seq!['-'] + decimal_of(timestamp) + seq!['.', 'j', 's', 'o', 'n']
}

/// The file stem of a path as std's `Path::file_stem` gives it (the last
/// component without its extension), empty where there is none.
pub uninterp spec fn file_stem_of(p: Seq<char>) -> Seq<char>;

/// Relies on std::path::Path::file_stem, read lossily as UTF-8; no stem
/// gives the empty string.
#[verifier::external_body]
fn file_stem(p: &str) -> (r: String)
    ensures
        r@ == file_stem_of(p@),
{
    std::path::Path::new(p).file_stem().unwrap_or_default().to_string_lossy().to_string()
}

fn digit_str(d: u128) -> (r: &'static str)
    requires
        d < 10,
    ensures
        r@ == seq![digit_char(d as nat)],
{
    proof {
        reveal_strlit("0");
        reveal_strlit("1");
        reveal_strlit("2");
        reveal_strlit("3");
        reveal_strlit("4");
        reveal_strlit("5");
        reveal_strlit("6");
        reveal_strlit("7");
        reveal_strlit("8");
        reveal_strlit("9");
    }
    let r = if d == 0 {
        "0"
    } else if d == 1 {
        "1"
    } else if d == 2 {
        "2"
    } else if d == 3 {
        "3"
    } else if d == 4 {
        "4"
    } else if d == 5 {
        "5"
    } else if d == 6 {
        "6"
    } else if d == 7 {
        "7"
    } else if d == 8 {
        "8"
    } else {
        "9"
    };
    assert(r@ =~= seq![digit_char(d as nat)]);
    r
}

/// `n` written in decimal.
pub fn decimal(n: u128) -> (r: String)
    ensures
        r@ == decimal_of(n as nat),
    decreases n,
{
    if n < 10 {
        String::from_str(digit_str(n))
    } else {
        let mut s = decimal(n / 10);
        s.append(digit_str(n % 10));
        assert(s@ =~= decimal_of(n as nat));
        s
    }
}

/// The output file's name for a directory whose stem is `stem`, written at
/// `timestamp` (whole seconds since the Unix epoch).
pub fn output_file_name_for(stem: &str, timestamp: u64) -> (r: String)
    ensures
        r@ == output_name(stem@, timestamp as nat),
{
    proof {
        reveal_strlit("-");
        reveal_strlit(".json");
    }
    let mut r = String::from_str(stem);
    r.append("-");
    let t = decimal(timestamp as u128);
    r.append(t.as_str());
    r.append(".json");
    assert(r@ =~= output_name(stem@, timestamp as nat));
    r
}

/// The output file's name for the directory at `dir`, written at
/// `timestamp`: the directory's stem, a dash, the timestamp, `.json`.
pub fn output_file_name(dir: &str, timestamp: u64) -> (r: String)
    ensures
        r@ == output_name(file_stem_of(dir@), timestamp as nat),
{
    let stem = file_stem(dir);
    output_file_name_for(stem.as_str(), timestamp)
}

/// The line that compares the size of the decoded source files with the size
/// of the JSON text.
pub fn size_report(before: u64, after: u64) -> (r: String)
    ensures
        r@ == size_line(before as nat, after as nat),
{
    proof {
        reveal_strlit("size: ");
        reveal_strlit(" -> ");
        reveal_strlit(" ( ");
        reveal_strlit("% )");
        reveal_strlit("NaN");
        reveal_strlit("inf");
        reveal_strlit(".");
    }
    let mut r = String::from_str("size: ");
    let b = decimal(before as u128);
    r.append(b.as_str());
    r.append(" -> ");
    let a = decimal(after as u128);
    r.append(a.as_str());
    r.append(" ( ");
    let ghost head = r@;
    if before == 0 {
        if after == 0 {
            r.append("NaN");
        } else {
            r.append("inf");
        }
    } else {
        let num: u128 = 20000 * (after as u128) + before as u128;
        let den: u128 = 2 * (before as u128);
        let q: u128 = num / den;
        assert(q as nat == hundredths(before as nat, after as nat));
        let whole = decimal(q / 100);
        r.append(whole.as_str());
        r.append(".");
        let m: u128 = q % 100;
        r.append(digit_str(m / 10));
        r.append(digit_str(m % 10));
    }
    assert(r@ =~= head + percent_text(before as nat, after as nat));
    r.append("% )");
    assert(r@ =~= size_line(before as nat, after as nat));
    r
}

} // verus!
