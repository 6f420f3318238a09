//! Text shaping for the report path: joining link lists into one
//! newline-separated column, splitting that column back into links, and
//! picking out the links that actually reference a stored paste.

use vstd::prelude::*;

use vstd::string::StrSliceExecFns;
use vstd::string::StringExecFns;

verus! {

/// The views of a sequence of strings.
pub open spec fn seq_views(parts: Seq<String>) -> Seq<Seq<char>> {
    parts.map_values(|p: String| p@)
}

/// The parts joined with a single newline between consecutive parts.
pub open spec fn join_lines(parts: Seq<Seq<char>>) -> Seq<char>
    decreases parts.len(),
{
    if parts.len() == 0 {
        Seq::empty()
    } else if parts.len() == 1 {
        parts[0]
    } else {
        join_lines(parts.drop_last()) + seq!['\n'] + parts.last()
    }
}

/// The index of the last newline in `s`, or -1 if there is none.
pub open spec fn last_sep(s: Seq<char>) -> int
    decreases s.len(),
{
    if s.len() == 0 {
        -1
    } else if s.last() == '\n' {
        s.len() - 1
    } else {
        last_sep(s.drop_last())
    }
}

/// The last-newline index is in range, names a newline, and nothing after it
/// is one.
pub proof fn lemma_last_sep_bounds(s: Seq<char>)
    ensures
        -1 <= last_sep(s) < s.len(),
        last_sep(s) >= 0 ==> s[last_sep(s)] == '\n',
        forall|i: int| last_sep(s) < i < s.len() ==> s[i] != '\n',
    decreases s.len(),
{
    if s.len() > 0 {
        lemma_last_sep_bounds(s.drop_last());
        assert(forall|i: int| 0 <= i < s.len() - 1 ==> s[i] == s.drop_last()[i]);
    }
}

/// `s` split at every newline; a string without one is one single part, and
/// every newline ends a part, so `n` newlines make `n + 1` parts.
pub open spec fn split_lines(s: Seq<char>) -> Seq<Seq<char>>
    decreases s.len(),
    via split_lines_decreases
{
    let j = last_sep(s);
    if j < 0 {
        seq![s]
    } else {
        split_lines(s.take(j)).push(s.skip(j + 1))
    }
}

#[via_fn]
proof fn split_lines_decreases(s: Seq<char>) {
    lemma_last_sep_bounds(s);
}

/// Joins the parts with a newline between consecutive parts.
pub fn join_with_newlines(parts: &Vec<String>) -> (r: String)
    ensures
        r@ == join_lines(seq_views(parts@)),
{
    let mut r = String::new();
    let mut i: usize = 0;
    while i < parts.len()
        invariant
            i <= parts@.len(),
            r@ == join_lines(seq_views(parts@).take(i as int)),
        decreases parts@.len() - i,
    {
        if i > 0 {
            r.append("\n");
        }
        r.append(parts[i].as_str());
        proof {
            reveal_strlit("\n");
            assert("\n"@ =~= seq!['\n']);
            let vs = seq_views(parts@);
            assert(vs.take(i + 1).drop_last() =~= vs.take(i as int));
            assert(vs.take(i + 1).last() == parts@[i as int]@);
        }
        i += 1;
    }
    proof {
        assert(seq_views(parts@).take(parts@.len() as int) =~= seq_views(parts@));
    }
    r
}

/// The index of the last newline of `s`, if `s` has one.
fn find_last_newline(s: &str) -> (r: Option<usize>)
    ensures
        match r {
            Some(j) => j < s@.len() && last_sep(s@) == j,
            None => last_sep(s@) == -1,
        },
{
    let n = s.unicode_len();
    let mut k: usize = n;
    proof {
        assert(s@.take(n as int) =~= s@);
    }
    while k > 0
        invariant
            k <= n,
            n == s@.len(),
            last_sep(s@) == last_sep(s@.take(k as int)),
        decreases k,
    {
        k = k - 1;
        let c = s.get_char(k);
        proof {
            assert(s@.take(k + 1).drop_last() =~= s@.take(k as int));
            assert(s@.take(k + 1).last() == s@[k as int]);
        }
        if c == '\n' {
            return Some(k);
        }
    }
    proof {
        assert(s@.take(0) =~= Seq::<char>::empty());
    }
    None
}

/// Splits `s` at every newline, into owned parts.
pub fn split_newlines(s: &str) -> (r: Vec<String>)
    ensures
        seq_views(r@) == split_lines(s@),
    decreases s@.len(),
{
    proof {
        lemma_last_sep_bounds(s@);
    }
    let n = s.unicode_len();
    match find_last_newline(s) {
        None => {
            let mut r: Vec<String> = Vec::new();
            r.push(s.to_owned());
            proof {
                assert(seq_views(r@) =~= split_lines(s@));
            }
            r
        },
        Some(j) => {
            let head = s.substring_char(0, j);
            let tail = s.substring_char(j + 1, n);
            proof {
                assert(head@ == s@.take(j as int));
                assert(tail@ =~= s@.skip(j + 1));
            }
            let mut r = split_newlines(head);
            r.push(tail.to_owned());
            proof {
                assert(seq_views(r@) =~= split_lines(s@));
            }
            r
        },
    }
}

/// Joining one or more newline-free parts and splitting the result returns
/// exactly the original parts: listing a stored report reconstructs the very
/// links that were filed, as long as no link contains a newline.
pub proof fn lemma_split_joined_lines(parts: Seq<Seq<char>>)
    requires
        parts.len() >= 1,
        forall|i: int, j: int| 0 <= i < parts.len() && 0 <= j < parts[i].len() ==> parts[i][j]
            != '\n',
    ensures
        split_lines(join_lines(parts)) == parts,
    decreases parts.len(),
{
    if parts.len() == 1 {
        lemma_no_newline_no_sep(parts[0]);
        assert(split_lines(join_lines(parts)) =~= parts);
    } else {
        let prefix = join_lines(parts.drop_last());
        let whole = prefix + seq!['\n'] + parts.last();
        lemma_last_sep_after(prefix, parts.last());
        assert(last_sep(whole) == prefix.len());
        assert(whole.take(prefix.len() as int) =~= prefix);
        assert(whole.skip(prefix.len() as int + 1) =~= parts.last());
        assert(forall|i: int, j: int|
            0 <= i < parts.drop_last().len() && 0 <= j < parts.drop_last()[i].len()
                ==> parts.drop_last()[i][j] != '\n');
        lemma_split_joined_lines(parts.drop_last());
        assert(split_lines(whole) =~= parts);
    }
}

/// A newline-free string has no last newline.
proof fn lemma_no_newline_no_sep(s: Seq<char>)
    requires
        forall|j: int| 0 <= j < s.len() ==> s[j] != '\n',
    ensures
        last_sep(s) == -1,
    decreases s.len(),
{
    if s.len() > 0 {
        assert(forall|j: int| 0 <= j < s.len() - 1 ==> s.drop_last()[j] == s[j]);
        lemma_no_newline_no_sep(s.drop_last());
    }
}

/// The last newline of `prefix + '\n' + tail` is the one written between
/// them, when `tail` is newline-free.
proof fn lemma_last_sep_after(prefix: Seq<char>, tail: Seq<char>)
    requires
        forall|j: int| 0 <= j < tail.len() ==> tail[j] != '\n',
    ensures
        last_sep(prefix + seq!['\n'] + tail) == prefix.len(),
    decreases tail.len(),
{
    let whole = prefix + seq!['\n'] + tail;
    if tail.len() == 0 {
        assert(whole.last() == '\n');
    } else {
        assert(whole.last() == tail.last());
        assert(whole.drop_last() =~= prefix + seq!['\n'] + tail.drop_last());
        assert(forall|j: int| 0 <= j < tail.len() - 1 ==> tail.drop_last()[j] == tail[j]);
        lemma_last_sep_after(prefix, tail.drop_last());
    }
}

/// How many path or fragment separators (`/` or `#`) the string carries.
pub open spec fn count_separators(s: Seq<char>) -> nat
    decreases s.len(),
{
    if s.len() == 0 {
        0
    } else {
        count_separators(s.drop_last()) + if s.last() == '/' || s.last() == '#' {
            1nat
        } else {
            0nat
        }
    }
}

/// A link references a stored paste when its fifth `/`- or `#`-separated
/// segment exists, that is, when it carries at least four separators.
pub open spec fn is_paste_link(link: Seq<char>) -> bool {
    count_separators(link) >= 4
}

/// The links of the sequence that reference a stored paste, in order.
pub open spec fn paste_links(links: Seq<Seq<char>>) -> Seq<Seq<char>>
    decreases links.len(),
{
    if links.len() == 0 {
        Seq::empty()
    } else {
        paste_links(links.drop_last()) + if is_paste_link(links.last()) {
            seq![links.last()]
        } else {
            Seq::empty()
        }
    }
}

/// Counts the `/` and `#` separators of `s`.
fn count_separators_in(s: &str) -> (n: usize)
    ensures
        n == count_separators(s@),
{
    let len = s.unicode_len();
    let mut n: usize = 0;
    let mut i: usize = 0;
    while i < len
        invariant
            i <= len,
            len == s@.len(),
            n <= i,
            n == count_separators(s@.take(i as int)),
        decreases len - i,
    {
        let c = s.get_char(i);
        proof {
            assert(s@.take(i + 1).drop_last() =~= s@.take(i as int));
            assert(s@.take(i + 1).last() == s@[i as int]);
        }
        if c == '/' || c == '#' {
            n = n + 1;
        }
        i += 1;
    }
    proof {
        assert(s@.take(s@.len() as int) =~= s@);
    }
    n
}

/// Keeps, in order, the links that reference a stored paste.
pub fn filter_paste_links(links: &Vec<String>) -> (r: Vec<String>)
    ensures
        seq_views(r@) == paste_links(seq_views(links@)),
{
    let mut r: Vec<String> = Vec::new();
    let mut i: usize = 0;
    while i < links.len()
        invariant
            i <= links@.len(),
            seq_views(r@) == paste_links(seq_views(links@).take(i as int)),
        decreases links@.len() - i,
    {
        proof {
            let vs = seq_views(links@);
            assert(vs.take(i + 1).drop_last() =~= vs.take(i as int));
            assert(vs.take(i + 1).last() == links@[i as int]@);
        }
        if count_separators_in(links[i].as_str()) >= 4 {
            r.push(links[i].clone());
            proof {
                assert(seq_views(r@) =~= paste_links(seq_views(links@).take(i + 1)));
            }
        } else {
            proof {
                assert(seq_views(r@) =~= paste_links(seq_views(links@).take(i + 1)));
            }
        }
        i += 1;
    }
    proof {
        assert(seq_views(links@).take(links@.len() as int) =~= seq_views(links@));
    }
    r
}

} // verus!
