//! Parsing the textual output of the version-control status query.
//!
//! The listing is line-oriented: every line opens with a fixed-width
//! two-character status code followed by the path of a modified file.  The
//! parser keeps, per line, everything after that prefix, in listing order and
//! without de-duplication.  Lines shorter than the prefix (the format
//! produces none) are ignored rather than an error.

use vstd::prelude::*;

use crate::text::lemma_deep_view_push;

verus! {

/// Index of the first newline in `s`, or `s.len()` if there is none.
pub open spec fn first_newline(s: Seq<char>) -> int
    decreases s.len(),
{
    if s.len() == 0 {
        0
    } else if s[0] == '\n' {
        0
    } else {
        1 + first_newline(s.drop_first())
    }
}

/// `first_newline` points at a newline (or the end) and nothing before it is
/// a newline.
pub proof fn lemma_first_newline(s: Seq<char>)
    ensures
        0 <= first_newline(s) <= s.len(),
        forall|i: int| 0 <= i < first_newline(s) ==> s[i] != '\n',
        first_newline(s) < s.len() ==> s[first_newline(s)] == '\n',
    decreases s.len(),
{
    if s.len() > 0 && s[0] != '\n' {
        let rest = s.drop_first();
        lemma_first_newline(rest);
        assert forall|i: int| 0 <= i < first_newline(s) implies s[i] != '\n' by {
            if i > 0 {
                assert(rest[i - 1] == s[i]);
            }
        }
    }
}

/// Any position carrying a newline (or the end) with no newline before it is
/// `first_newline`.
pub proof fn lemma_first_newline_unique(s: Seq<char>, i: int)
    requires
        0 <= i <= s.len(),
        forall|j: int| 0 <= j < i ==> s[j] != '\n',
        i < s.len() ==> s[i] == '\n',
    ensures
        first_newline(s) == i,
{
    lemma_first_newline(s);
}

/// The payload of one raw line: a trailing carriage return — left over from
/// a carriage-return/newline ending — is not part of it.
pub open spec fn line_payload(line: Seq<char>) -> Seq<char> {
    if line.len() > 0 && line[line.len() - 1] == '\r' {
        line.drop_last()
    } else {
        line
    }
}

/// The modified paths named by a status listing: the payload of each
/// newline-separated line at least as long as the two-character status
/// prefix, with that prefix removed.  Order is listing order; duplicates are
/// kept.
pub open spec fn modified_view(s: Seq<char>) -> Seq<Seq<char>>
    decreases s.len(),
    via modified_view_decreases
{
    if s.len() == 0 {
        Seq::empty()
    } else {
        let i = first_newline(s);
        let payload = line_payload(s.take(i));
        let rest = if i == s.len() {
            Seq::<char>::empty()
        } else {
            s.skip(i + 1)
        };
        (if payload.len() >= 2 {
            seq![payload.skip(2)]
        } else {
            Seq::<Seq<char>>::empty()
        }) + modified_view(rest)
    }
}

#[via_fn]
proof fn modified_view_decreases(s: Seq<char>) {
    lemma_first_newline(s);
}

/// Position of the first newline at or after `from`, or the end of `s`.
fn find_newline(s: &str, from: usize) -> (i: usize)
    requires
        from <= s@.len(),
    ensures
        from <= i <= s@.len(),
        i - from == first_newline(s@.skip(from as int)),
{
    let n = s.unicode_len();
    let mut i = from;
    while i < n
        invariant
            from <= i <= n == s@.len(),
            forall|j: int| from <= j < i ==> s@[j] != '\n',
        decreases n - i,
    {
        if s.get_char(i) == '\n' {
            proof {
                let t = s@.skip(from as int);
                assert(forall|j: int| 0 <= j < i - from ==> t[j] == s@[from + j]);
                lemma_first_newline_unique(t, i - from);
            }
            return i;
        }
        i = i + 1;
    }
    proof {
        let t = s@.skip(from as int);
        assert(forall|j: int| 0 <= j < t.len() ==> t[j] == s@[from + j]);
        lemma_first_newline_unique(t, n - from);
    }
    i
}

/// Parses a status listing into the ordered list of modified paths.
pub fn modified_files(output: &str) -> (r: Vec<String>)
    ensures
        r.deep_view() == modified_view(output@),
{
    let n = output.unicode_len();
    let mut r: Vec<String> = Vec::new();
    let mut pos: usize = 0;
    proof {
        assert(output@.skip(0) =~= output@);
    }
    while pos < n
        invariant
            pos <= n == output@.len(),
            r.deep_view() + modified_view(output@.skip(pos as int)) == modified_view(output@),
        decreases n - pos,
    {
        let ghost prev = r.deep_view();
        let ghost t = output@.skip(pos as int);
        let i = find_newline(output, pos);
        proof {
            assert(t.take(i - pos) =~= output@.subrange(pos as int, i as int));
        }
        let end = if i > pos && output.get_char(i - 1) == '\r' {
            i - 1
        } else {
            i
        };
        proof {
            assert(line_payload(t.take(i - pos)) =~= output@.subrange(pos as int, end as int));
        }
        if end - pos >= 2 {
            let path = String::from_str(output.substring_char(pos + 2, end));
            proof {
                assert(line_payload(t.take(i - pos)).skip(2) =~= output@.subrange(
                    pos + 2,
                    end as int,
                ));
            }
            let ghost before = r;
            r.push(path);
            proof {
                lemma_deep_view_push(before, r, path);
            }
        }
        let newpos = if i < n {
            i + 1
        } else {
            i
        };
        proof {
            let payload = line_payload(t.take(i - pos));
            let contribution: Seq<Seq<char>> = if payload.len() >= 2 {
                seq![payload.skip(2)]
            } else {
                Seq::<Seq<char>>::empty()
            };
            if i < n {
                assert(t.skip(i - pos + 1) =~= output@.skip(newpos as int));
                assert(modified_view(t) == contribution + modified_view(
                    output@.skip(newpos as int),
                ));
            } else {
                assert(output@.skip(newpos as int) =~= Seq::<char>::empty());
                assert(modified_view(t) == contribution + modified_view(
                    output@.skip(newpos as int),
                ));
            }
            assert(r.deep_view() =~= prev + contribution);
            assert(r.deep_view() + modified_view(output@.skip(newpos as int)) =~= prev
                + modified_view(t));
        }
        pos = newpos;
    }
    proof {
        assert(output@.skip(pos as int) =~= Seq::<char>::empty());
        assert(r.deep_view() + modified_view(output@.skip(pos as int)) =~= r.deep_view());
    }
    r
}

} // verus!
