//! Rendering values to text: the decimal form of the totals and the two
//! record displays, each pinned to a character-level specification.
use vstd::prelude::*;

use crate::types::{Config, RepoSummary};

verus! {

/// The character of one decimal digit.
pub open spec fn digit_char(d: int) -> char {
    if d == 0 {
        '0'
    } else if d == 1 {
        '1'
    } else if d == 2 {
        '2'
    } else if d == 3 {
        '3'
    } else if d == 4 {
        '4'
    } else if d == 5 {
        '5'
    } else if d == 6 {
        '6'
    } else if d == 7 {
        '7'
    } else if d == 8 {
        '8'
    } else {
        '9'
    }
}

/// The decimal digits of a nonnegative number, most significant first.
pub open spec fn dec_digits(n: int) -> Seq<char>
    decreases n,
{
    if n < 10 {
        seq![digit_char(n)]
    } else {
        dec_digits(n / 10).push(digit_char(n % 10))
    }
}

/// The decimal form of a signed number: a minus sign and the digits of its
/// magnitude, or just the digits.
pub open spec fn dec_str(n: int) -> Seq<char> {
    if n < 0 {
        seq!['-'] + dec_digits(-n)
    } else {
        dec_digits(n)
    }
}

/// One digit as text.
fn digit_str(d: u64) -> (r: &'static str)
    requires
        d < 10,
    ensures
        r@ == seq![digit_char(d as int)],
{
    proof {
        reveal_strlit("0");
        reveal_strlit("1");
        reveal_strlit("2");
        reveal_strlit("3");
        reveal_strlit("4");
        reveal_strlit("5");
        reveal_strlit("6");
        reveal_strlit("7");
        reveal_strlit("8");
        reveal_strlit("9");
    }
    if d == 0 {
        "0"
    } else if d == 1 {
        "1"
    } else if d == 2 {
        "2"
    } else if d == 3 {
        "3"
    } else if d == 4 {
        "4"
    } else if d == 5 {
        "5"
    } else if d == 6 {
        "6"
    } else if d == 7 {
        "7"
    } else if d == 8 {
        "8"
    } else {
        "9"
    }
}

/// The digits in `lsb`, which holds them least significant first, read back
/// most significant first.
pub open spec fn chars_of_rev(lsb: Seq<u64>) -> Seq<char>
    decreases lsb.len(),
{
    if lsb.len() == 0 {
        Seq::empty()
    } else {
        seq![digit_char(lsb.last() as int)] + chars_of_rev(lsb.drop_last())
    }
}

/// Appends the decimal digits of `n` to `out`.
fn push_decimal(out: &mut String, n: u64)
    ensures
        final(out)@ == old(out)@ + dec_digits(n as int),
{
    let ghost n0 = n as int;
    let mut lsb: Vec<u64> = Vec::new();
    let mut m = n;
    proof {
        assert(chars_of_rev(lsb@) =~= Seq::<char>::empty());
        assert(dec_digits(n0) =~= dec_digits(m as int) + chars_of_rev(lsb@));
    }
    while m >= 10
        invariant
            dec_digits(n0) == dec_digits(m as int) + chars_of_rev(lsb@),
            forall|k: int| 0 <= k < lsb@.len() ==> #[trigger] lsb@[k] < 10,
        decreases m,
    {
        let ghost lsb0 = lsb@;
        let ghost m0 = m as int;
        lsb.push(m % 10);
        m = m / 10;
        proof {
            assert(dec_digits(m0) == dec_digits(m0 / 10).push(digit_char(m0 % 10)));
            assert(lsb@.drop_last() =~= lsb0);
            assert(lsb@.last() == m0 % 10);
            assert(chars_of_rev(lsb@) == seq![digit_char(m0 % 10)] + chars_of_rev(lsb0));
            assert(dec_digits(m0 / 10) + (seq![digit_char(m0 % 10)] + chars_of_rev(lsb0))
                =~= (dec_digits(m0 / 10).push(digit_char(m0 % 10))) + chars_of_rev(lsb0));
        }
    }
    let ghost out0 = out@;
    let d = digit_str(m);
    out.append(d);
    proof {
        assert(dec_digits(m as int) == seq![digit_char(m as int)]);
        assert(out@ =~= out0 + dec_digits(m as int));
    }
    proof {
        assert(lsb@.take(lsb@.len() as int) =~= lsb@);
        let full = dec_digits(n0);
        let tail = chars_of_rev(lsb@);
        assert(full == dec_digits(m as int) + tail);
        assert(full.take(full.len() - tail.len()) =~= dec_digits(m as int));
    }
    let mut k = lsb.len();
    while k > 0
        invariant
            k <= lsb@.len(),
            forall|j: int| 0 <= j < lsb@.len() ==> #[trigger] lsb@[j] < 10,
            out@ == out0 + dec_digits(n0).take(dec_digits(n0).len() - chars_of_rev(
                lsb@.take(k as int),
            ).len()),
            dec_digits(n0) == dec_digits(n0).take(
                dec_digits(n0).len() - chars_of_rev(lsb@.take(k as int)).len(),
            ) + chars_of_rev(lsb@.take(k as int)),
        decreases k,
    {
        k = k - 1;
        let ghost pre = lsb@.take(k + 1);
        proof {
            assert(pre.last() == lsb@[k as int]);
            assert(pre.drop_last() =~= lsb@.take(k as int));
            assert(chars_of_rev(pre) == seq![digit_char(lsb@[k as int] as int)] + chars_of_rev(
                lsb@.take(k as int),
            ));
        }
        let d = digit_str(lsb[k]);
        out.append(d);
        proof {
            let full = dec_digits(n0);
            let tail_new = chars_of_rev(lsb@.take(k as int));
            let tail_old = chars_of_rev(pre);
            assert(full == full.take(full.len() - tail_old.len()) + tail_old);
            assert(full.take(full.len() - tail_new.len()) =~= full.take(
                full.len() - tail_old.len(),
            ) + seq![digit_char(lsb@[k as int] as int)]);
            assert(full =~= full.take(full.len() - tail_new.len()) + tail_new);
        }
    }
    proof {
        assert(lsb@.take(0) =~= Seq::<u64>::empty());
        assert(chars_of_rev(lsb@.take(0)) =~= Seq::<char>::empty());
        assert(dec_digits(n0).take(dec_digits(n0).len() as int) =~= dec_digits(n0));
    }
}

/// Appends the decimal form of a signed number to `out`.
pub fn push_signed(out: &mut String, n: i64)
    ensures
        final(out)@ == old(out)@ + dec_str(n as int),
{
    if n >= 0 {
        push_decimal(out, n as u64);
    } else {
        let ghost out0 = out@;
        proof {
            reveal_strlit("-");
        }
        out.append("-");
        let m: u64 = ((-(n + 1)) as u64) + 1;
        proof {
            assert(m as int == -(n as int));
        }
        push_decimal(out, m);
        proof {
            assert(out0 + seq!['-'] + dec_digits(m as int) =~= out0 + (seq!['-'] + dec_digits(
                -(n as int),
            )));
        }
    }
}

/// A run of `n` mask characters.
pub open spec fn star_run(n: int) -> Seq<char>
    decreases n,
{
    if n <= 0 {
        Seq::empty()
    } else {
        star_run(n - 1).push('*')
    }
}

/// What a repository summary displays as: its three totals, each on its own
/// labelled line.
pub open spec fn summary_text(commits: int, additions: int, deletions: int) -> Seq<char> {
    "----------\nCommits: "@ + dec_str(commits) + "\nAdditions: "@ + dec_str(additions)
        + "\nDeletions: "@ + dec_str(deletions)
}

impl RepoSummary {
    /// Renders the summary as the report prints it.
    pub fn display_string(&self) -> (r: String)
        ensures
            r@ == summary_text(
                self.total_commits as int,
                self.total_additions as int,
                self.total_deletions as int,
            ),
    {
        let mut out = String::new();
        out.append("----------\nCommits: ");
        push_signed(&mut out, self.total_commits);
        out.append("\nAdditions: ");
        push_signed(&mut out, self.total_additions);
        out.append("\nDeletions: ");
        push_signed(&mut out, self.total_deletions);
        proof {
            assert(out@ =~= summary_text(
                self.total_commits as int,
                self.total_additions as int,
                self.total_deletions as int,
            ));
        }
        out
    }
}

/// What the credential record displays as: the username in the clear or
/// "Not set", and the token masked character for character or "Not set".
pub open spec fn config_text(username: Option<Seq<char>>, token: Option<Seq<char>>) -> Seq<char> {
    "Username: "@ + (match username {
        Some(u) => u,
        None => "Not set"@,
    }) + "\nToken: "@ + (match token {
        Some(t) => star_run(t.len() as int),
        None => "Not set"@,
    })
}

/// The view of an optional string.
pub open spec fn opt_view(o: Option<String>) -> Option<Seq<char>> {
    match o {
        Some(s) => Some(s@),
        None => None,
    }
}

impl Config {
    /// Renders the credential record with the token masked: a reader sees
    /// how long the token is, never its characters.
    pub fn display_string(&self) -> (r: String)
        ensures
            r@ == config_text(opt_view(self.username), opt_view(self.token)),
    {
        let mut out = String::new();
        out.append("Username: ");
        match &self.username {
            Some(u) => out.append(u.as_str()),
            None => out.append("Not set"),
        }
        out.append("\nToken: ");
        match &self.token {
            Some(t) => {
                let n = t.as_str().unicode_len();
                let ghost before = out@;
                let mut j: usize = 0;
                proof {
                    reveal_strlit("*");
                }
                while j < n
                    invariant
                        j <= n,
                        "*"@ == seq!['*'],
                        out@ == before + star_run(j as int),
                    decreases n - j,
                {
                    out.append("*");
                    j = j + 1;
                }
                proof {
                    assert(n as int == t@.len() as int);
                }
            },
            None => out.append("Not set"),
        }
        proof {
            assert(out@ =~= config_text(opt_view(self.username), opt_view(self.token)));
        }
        out
    }
}

} // verus!
