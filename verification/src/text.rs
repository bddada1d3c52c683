//! Verified text utilities for the command-output parsers: whitespace
//! trimming, line and field splitting, tolerant decimal parsing, and
//! prefix handling. Each executable function is specified against a
//! spec-level mirror over `Seq<char>`.
use vstd::prelude::*;

verus! {

/// Whitespace as this crate's parsers understand it: the blank characters
/// that version-control command output actually contains.
pub open spec fn is_space(c: char) -> bool {
    c == ' ' || c == '\t' || c == '\n' || c == '\r'
}

/// `s` without its leading whitespace.
pub open spec fn trim_start_rec(s: Seq<char>) -> Seq<char>
    decreases s.len(),
{
    if s.len() > 0 && is_space(s[0]) {
        trim_start_rec(s.skip(1))
    } else {
        s
    }
}

/// `s` without its trailing whitespace.
pub open spec fn trim_end_rec(s: Seq<char>) -> Seq<char>
    decreases s.len(),
{
    if s.len() > 0 && is_space(s[s.len() - 1]) {
        trim_end_rec(s.drop_last())
    } else {
        s
    }
}

/// `s` without leading and trailing whitespace.
pub open spec fn trimmed(s: Seq<char>) -> Seq<char> {
    trim_end_rec(trim_start_rec(s))
}

fn is_space_c(c: char) -> (r: bool)
    ensures
        r == is_space(c),
{
    c == ' ' || c == '\t' || c == '\n' || c == '\r'
}

/// Whether the character sequences of two string slices are equal.
pub fn str_eq(a: &str, b: &str) -> (r: bool)
    ensures
        r == (a@ == b@),
{
    let sa: String = a.to_owned();
    let sb: String = b.to_owned();
    sa == sb
}

/// Removes leading and trailing whitespace.
pub fn trim_str(s: &str) -> (r: String)
    ensures
        r@ == trimmed(s@),
{
    let n = s.unicode_len();
    proof {
        assert(s@.skip(0) =~= s@);
    }
    let mut a: usize = 0;
    while a < n && is_space_c(s.get_char(a))
        invariant
            n == s@.len(),
            0 <= a <= n,
            trim_start_rec(s@) == trim_start_rec(s@.skip(a as int)),
        decreases n - a,
    {
        proof {
            assert(s@.skip(a as int).skip(1) =~= s@.skip(a as int + 1));
        }
        a += 1;
    }
    proof {
        assert(trim_start_rec(s@) == s@.skip(a as int));
    }
    proof {
        assert(s@.subrange(a as int, n as int) =~= s@.skip(a as int));
    }
    let mut b: usize = n;
    while b > a && is_space_c(s.get_char(b - 1))
        invariant
            n == s@.len(),
            0 <= a <= b <= n,
            trim_start_rec(s@) == s@.skip(a as int),
            trim_end_rec(s@.skip(a as int)) == trim_end_rec(s@.subrange(a as int, b as int)),
        decreases b,
    {
        proof {
            assert(s@.subrange(a as int, b as int).drop_last() =~= s@.subrange(
                a as int,
                b as int - 1,
            ));
        }
        b -= 1;
    }
    proof {
        if b == a {
            assert(s@.subrange(a as int, b as int).len() == 0);
        }
        assert(trimmed(s@) == s@.subrange(a as int, b as int));
    }
    s.substring_char(a, b).to_owned()
}

/// A line with one terminating carriage return removed.
pub open spec fn drop_cr(l: Seq<char>) -> Seq<char> {
    if l.len() > 0 && l[l.len() - 1] == '\r' {
        l.drop_last()
    } else {
        l
    }
}

/// The lines of `s` from position `i` onward, given the characters of the
/// currently open line in `cur`: lines are separated by a newline, each is
/// stripped of one trailing carriage return, and a trailing newline opens
/// no empty final line.
pub open spec fn lines_acc(s: Seq<char>, i: int, cur: Seq<char>) -> Seq<Seq<char>>
    decreases s.len() - i,
{
    if i < 0 || i >= s.len() {
        if cur.len() > 0 {
            seq![drop_cr(cur)]
        } else {
            Seq::empty()
        }
    } else if s[i] == '\n' {
        seq![drop_cr(cur)] + lines_acc(s, i + 1, Seq::empty())
    } else {
        lines_acc(s, i + 1, cur.push(s[i]))
    }
}

/// The lines of `s`.
pub open spec fn split_lines(s: Seq<char>) -> Seq<Seq<char>> {
    lines_acc(s, 0, Seq::empty())
}

fn drop_cr_of(s: &str, a: usize, b: usize) -> (r: String)
    requires
        a <= b <= s@.len(),
    ensures
        r@ == drop_cr(s@.subrange(a as int, b as int)),
{
    if b > a && s.get_char(b - 1) == '\r' {
        proof {
            assert(s@.subrange(a as int, b as int).drop_last() =~= s@.subrange(
                a as int,
                b as int - 1,
            ));
        }
        s.substring_char(a, b - 1).to_owned()
    } else {
        s.substring_char(a, b).to_owned()
    }
}

/// Splits `s` into lines.
pub fn split_lines_str(s: &str) -> (r: Vec<String>)
    ensures
        r.deep_view() == split_lines(s@),
{
    let n = s.unicode_len();
    let mut out: Vec<String> = Vec::new();
    let mut start: usize = 0;
    let mut i: usize = 0;
    proof {
        assert(s@.subrange(0, 0) =~= Seq::<char>::empty());
        assert(out.deep_view() + lines_acc(s@, 0, Seq::empty()) =~= split_lines(s@));
    }
    while i < n
        invariant
            n == s@.len(),
            0 <= start <= i <= n,
            split_lines(s@) == out.deep_view() + lines_acc(
                s@,
                i as int,
                s@.subrange(start as int, i as int),
            ),
        decreases n - i,
    {
        let ghost cur = s@.subrange(start as int, i as int);
        let c = s.get_char(i);
        if c == '\n' {
            let line = drop_cr_of(s, start, i);
            let ghost old_dv = out.deep_view();
            out.push(line);
            proof {
                assert(out.deep_view() =~= old_dv + seq![line@]);
                assert(s@.subrange(i as int + 1, i as int + 1) =~= Seq::<char>::empty());
                assert(out.deep_view() + lines_acc(s@, i as int + 1, Seq::empty()) =~= old_dv + (
                seq![drop_cr(cur)] + lines_acc(s@, i as int + 1, Seq::empty())));
            }
            start = i + 1;
        } else {
            proof {
                assert(cur.push(s@[i as int]) =~= s@.subrange(start as int, i as int + 1));
            }
        }
        i += 1;
    }
    let ghost cur = s@.subrange(start as int, n as int);
    if start < n {
        let line = drop_cr_of(s, start, n);
        let ghost old_dv = out.deep_view();
        out.push(line);
        proof {
            assert(out.deep_view() =~= old_dv + seq![line@]);
            assert(split_lines(s@) =~= out.deep_view());
        }
    } else {
        proof {
            assert(cur.len() == 0);
            assert(split_lines(s@) =~= out.deep_view());
        }
    }
    out
}

/// The whitespace-separated fields of `s` from position `i` onward, with
/// the characters of the currently open field in `cur`.
pub open spec fn fields_acc(s: Seq<char>, i: int, cur: Seq<char>) -> Seq<Seq<char>>
    decreases s.len() - i,
{
    if i < 0 || i >= s.len() {
        if cur.len() > 0 {
            seq![cur]
        } else {
            Seq::empty()
        }
    } else if is_space(s[i]) {
        (if cur.len() > 0 {
            seq![cur]
        } else {
            Seq::empty()
        }) + fields_acc(s, i + 1, Seq::empty())
    } else {
        fields_acc(s, i + 1, cur.push(s[i]))
    }
}

/// The whitespace-separated fields of `s`: maximal runs of non-blank
/// characters, in order.
pub open spec fn fields(s: Seq<char>) -> Seq<Seq<char>> {
    fields_acc(s, 0, Seq::empty())
}

/// Splits `s` into whitespace-separated fields.
pub fn fields_str(s: &str) -> (r: Vec<String>)
    ensures
        r.deep_view() == fields(s@),
{
    let n = s.unicode_len();
    let mut out: Vec<String> = Vec::new();
    let mut start: usize = 0;
    let mut i: usize = 0;
    proof {
        assert(s@.subrange(0, 0) =~= Seq::<char>::empty());
        assert(out.deep_view() + fields_acc(s@, 0, Seq::empty()) =~= fields(s@));
    }
    while i < n
        invariant
            n == s@.len(),
            0 <= start <= i <= n,
            fields(s@) == out.deep_view() + fields_acc(
                s@,
                i as int,
                s@.subrange(start as int, i as int),
            ),
        decreases n - i,
    {
        let ghost cur = s@.subrange(start as int, i as int);
        let c = s.get_char(i);
        if is_space_c(c) {
            if i > start {
                let field = s.substring_char(start, i).to_owned();
                let ghost old_dv = out.deep_view();
                out.push(field);
                proof {
                    assert(out.deep_view() =~= old_dv + seq![field@]);
                    assert(s@.subrange(i as int + 1, i as int + 1) =~= Seq::<char>::empty());
                    assert(out.deep_view() + fields_acc(s@, i as int + 1, Seq::empty()) =~= old_dv
                        + (seq![cur] + fields_acc(s@, i as int + 1, Seq::empty())));
                }
            } else {
                proof {
                    assert(cur.len() == 0);
                    assert(s@.subrange(i as int + 1, i as int + 1) =~= Seq::<char>::empty());
                }
            }
            start = i + 1;
        } else {
            proof {
                assert(cur.push(s@[i as int]) =~= s@.subrange(start as int, i as int + 1));
            }
        }
        i += 1;
    }
    let ghost cur = s@.subrange(start as int, n as int);
    if start < n {
        let field = s.substring_char(start, n).to_owned();
        let ghost old_dv = out.deep_view();
        out.push(field);
        proof {
            assert(out.deep_view() =~= old_dv + seq![field@]);
            assert(fields(s@) =~= out.deep_view());
        }
    } else {
        proof {
            assert(cur.len() == 0);
            assert(fields(s@) =~= out.deep_view());
        }
    }
    out
}

/// A decimal digit.
pub open spec fn is_digit(c: char) -> bool {
    48 <= c as u32 <= 57
}

/// The numeric value of a decimal digit.
pub open spec fn digit_val(c: char) -> u64 {
    (c as u32 - 48) as u64
}

/// The value of the digits of `s` from position `i` onward accumulated
/// onto `acc`; `None` on a non-digit or once the value leaves `u64`.
pub open spec fn parse_u64_from(s: Seq<char>, i: int, acc: u64) -> Option<u64>
    decreases s.len() - i,
{
    if i < 0 || i >= s.len() {
        Some(acc)
    } else if !is_digit(s[i]) {
        None
    } else if acc > (u64::MAX - digit_val(s[i])) / 10 {
        None
    } else {
        parse_u64_from(s, i + 1, (acc * 10 + digit_val(s[i])) as u64)
    }
}

/// The commit count a text field stands for: its decimal value, or zero
/// where the field is not a plain decimal number (tolerant parsing).
pub open spec fn count_value(s: Seq<char>) -> u64 {
    match parse_u64_from(s, 0, 0) {
        Some(v) => v,
        None => 0,
    }
}

/// Reads a text field as a commit count; anything malformed counts as zero.
pub fn parse_count(s: &str) -> (r: u64)
    ensures
        r == count_value(s@),
{
    let n = s.unicode_len();
    let mut acc: u64 = 0;
    let mut i: usize = 0;
    while i < n
        invariant
            n == s@.len(),
            0 <= i <= n,
            parse_u64_from(s@, 0, 0) == parse_u64_from(s@, i as int, acc),
        decreases n - i,
    {
        let u = s.get_char(i) as u32;
        if u < 48 || u > 57 {
            return 0;
        }
        let d: u64 = (u - 48) as u64;
        if acc > (u64::MAX - d) / 10 {
            return 0;
        }
        proof {
            assert(acc as int * 10 + d as int <= u64::MAX as int) by (nonlinear_arith)
                requires
                    acc as int <= ((u64::MAX - d) as int) / 10,
                    0 <= d as int <= 9,
            ;
        }
        acc = acc * 10 + d;
        i += 1;
    }
    acc
}

/// Whether `p` is a prefix of `s`.
pub open spec fn has_prefix(s: Seq<char>, p: Seq<char>) -> bool {
    p.len() <= s.len() && s.take(p.len() as int) == p
}

/// Tests whether `p` starts `s`.
pub fn str_has_prefix(s: &str, p: &str) -> (r: bool)
    ensures
        r == has_prefix(s@, p@),
{
    let n = s.unicode_len();
    let m = p.unicode_len();
    if m > n {
        false
    } else {
        let head = s.substring_char(0, m);
        proof {
            assert(s@.subrange(0, m as int) =~= s@.take(m as int));
        }
        str_eq(head, p)
    }
}

/// The rest of `s` behind the prefix `p`, where `p` starts `s`.
pub fn strip_prefix_str(s: &str, p: &str) -> (r: Option<String>)
    ensures
        has_prefix(s@, p@) ==> r is Some && r->Some_0@ == s@.skip(p@.len() as int),
        !has_prefix(s@, p@) ==> r is None,
{
    if str_has_prefix(s, p) {
        let rest = s.substring_char(p.unicode_len(), s.unicode_len());
        proof {
            assert(s@.subrange(p@.len() as int, s@.len() as int) =~= s@.skip(p@.len() as int));
        }
        Some(rest.to_owned())
    } else {
        None
    }
}

/// `s` from position `i` onward with every occurrence of the non-empty
/// pattern `p` removed, scanning left to right.
pub open spec fn remove_pat_from(s: Seq<char>, p: Seq<char>, i: int) -> Seq<char>
    decreases s.len() - i,
{
    if i < 0 || i >= s.len() {
        Seq::empty()
    } else if p.len() > 0 && i + p.len() <= s.len() && s.subrange(i, i + p.len() as int) == p {
        remove_pat_from(s, p, i + p.len() as int)
    } else {
        seq![s[i]] + remove_pat_from(s, p, i + 1)
    }
}

/// Removes every occurrence of the pattern `p` from `s`.
pub fn remove_all(s: &str, p: &str) -> (r: String)
    requires
        p@.len() > 0,
    ensures
        r@ == remove_pat_from(s@, p@, 0),
{
    let n = s.unicode_len();
    let m = p.unicode_len();
    let mut out = String::new();
    let mut i: usize = 0;
    proof {
        assert(out@ + remove_pat_from(s@, p@, 0) =~= remove_pat_from(s@, p@, 0));
    }
    while i < n
        invariant
            n == s@.len(),
            m == p@.len(),
            m > 0,
            0 <= i <= n,
            remove_pat_from(s@, p@, 0) == out@ + remove_pat_from(s@, p@, i as int),
        decreases n - i,
    {
        let matched = if m <= n - i {
            let piece = s.substring_char(i, i + m);
            str_eq(piece, p)
        } else {
            false
        };
        if matched {
            i += m;
        } else {
            let one = s.substring_char(i, i + 1);
            out.append(one);
            proof {
                assert(one@ =~= seq![s@[i as int]]);
            }
            i += 1;
        }
    }
    out
}

} // verus!
