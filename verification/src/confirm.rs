//! The confirmation rule.
//!
//! Before anything destructive happens the operator is asked for one line of
//! input.  The run proceeds only when that line, ignoring surrounding
//! whitespace, is exactly `y` or `Y`; any other answer aborts the run.

use vstd::prelude::*;

verus! {

/// ASCII whitespace as it appears around a line read from a terminal.
pub open spec fn is_blank(c: char) -> bool {
    c == ' ' || c == '\t' || c == '\r' || c == '\n'
}

/// The sequence without its leading blanks.
pub open spec fn drop_leading_blanks(s: Seq<char>) -> Seq<char>
    decreases s.len(),
{
    if s.len() == 0 {
        s
    } else if is_blank(s[0]) {
        drop_leading_blanks(s.skip(1))
    } else {
        s
    }
}

/// The sequence without its trailing blanks.
pub open spec fn drop_trailing_blanks(s: Seq<char>) -> Seq<char>
    decreases s.len(),
{
    if s.len() == 0 {
        s
    } else if is_blank(s[s.len() - 1]) {
        drop_trailing_blanks(s.take(s.len() - 1))
    } else {
        s
    }
}

/// The sequence without leading and trailing blanks.
pub open spec fn trimmed(s: Seq<char>) -> Seq<char> {
    drop_trailing_blanks(drop_leading_blanks(s))
}

/// Whether a line of operator input confirms the run: exactly `y` or `Y`
/// once surrounding whitespace is ignored.
pub open spec fn confirm_accepted(s: Seq<char>) -> bool {
    trimmed(s) == seq!['y'] || trimmed(s) == seq!['Y']
}

/// Whether a character counts as blank.
fn blank_char(c: char) -> (r: bool)
    ensures
        r == is_blank(c),
{
    c == ' ' || c == '\t' || c == '\r' || c == '\n'
}

/// Dropping a blank first character does not change the result.
proof fn lemma_drop_leading_step(s: Seq<char>, i: int)
    requires
        0 <= i < s.len(),
        is_blank(s[i]),
    ensures
        drop_leading_blanks(s.skip(i)) == drop_leading_blanks(s.skip(i + 1)),
{
    assert(s.skip(i)[0] == s[i]);
    assert(s.skip(i).skip(1) =~= s.skip(i + 1));
}

/// Dropping a blank last character does not change the result.
proof fn lemma_drop_trailing_step(t: Seq<char>, k: int)
    requires
        0 < k <= t.len(),
        is_blank(t[k - 1]),
    ensures
        drop_trailing_blanks(t.take(k)) == drop_trailing_blanks(t.take(k - 1)),
{
    assert(t.take(k)[k - 1] == t[k - 1]);
    assert(t.take(k).take(k - 1) =~= t.take(k - 1));
}

/// Decides whether a line of operator input confirms the run.
pub fn confirmation_accepted(line: &str) -> (r: bool)
    ensures
        r == confirm_accepted(line@),
{
    let len: usize = line.unicode_len();
    let mut lo: usize = 0;
    proof {
        assert(line@.skip(0) =~= line@);
    }
    while lo < len && blank_char(line.get_char(lo))
        invariant
            lo <= len,
            len == line@.len(),
            drop_leading_blanks(line@) == drop_leading_blanks(line@.skip(lo as int)),
        decreases len - lo,
    {
        proof {
            lemma_drop_leading_step(line@, lo as int);
        }
        lo = lo + 1;
    }
    let ghost t = line@.skip(lo as int);
    proof {
        if lo < len {
            assert(t[0] == line@[lo as int]);
        }
        assert(drop_leading_blanks(line@) == t);
        assert(t.take(t.len() as int) =~= t);
    }
    let mut hi: usize = len;
    while hi > lo && blank_char(line.get_char(hi - 1))
        invariant
            lo <= hi <= len,
            len == line@.len(),
            t == line@.skip(lo as int),
            drop_trailing_blanks(t) == drop_trailing_blanks(t.take(hi - lo as int)),
        decreases hi,
    {
        proof {
            assert(t[hi - lo - 1] == line@[hi as int - 1]);
            lemma_drop_trailing_step(t, hi - lo as int);
        }
        hi = hi - 1;
    }
    proof {
        if hi > lo {
            assert(t.take(hi - lo as int)[hi - lo - 1] == line@[hi as int - 1]);
        }
        assert(trimmed(line@) == t.take(hi - lo as int));
        assert(t.take(hi - lo as int) =~= line@.subrange(lo as int, hi as int));
    }
    if hi - lo == 1 {
        let c = line.get_char(lo);
        proof {
            assert(line@.subrange(lo as int, hi as int) =~= seq![line@[lo as int]]);
            if c == 'y' {
                assert(trimmed(line@) =~= seq!['y']);
            } else {
                assert(trimmed(line@)[0] == c);
                assert(seq!['y'][0] == 'y');
            }
            if c == 'Y' {
                assert(trimmed(line@) =~= seq!['Y']);
            } else {
                assert(seq!['Y'][0] == 'Y');
            }
        }
        c == 'y' || c == 'Y'
    } else {
        proof {
            assert(trimmed(line@).len() != 1);
            assert(seq!['y'].len() == 1);
            assert(seq!['Y'].len() == 1);
        }
        false
    }
}

} // verus!
