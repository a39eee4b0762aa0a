use vstd::prelude::*;

verus! {

/// Number of characters before the first `\n` of `s` (all of them when
/// there is none).
pub open spec fn line_len(s: Seq<char>) -> nat
    decreases s.len(),
{
    if s.len() == 0 {
        0
    } else if s[0] == '\n' {
        0
    } else {
        1 + line_len(s.drop_first())
    }
}

/// A line ended by `\n` loses a `\r` just before that `\n`.
pub open spec fn strip_cr(l: Seq<char>) -> Seq<char> {
    if l.len() > 0 && l.last() == '\r' {
        l.drop_last()
    } else {
        l
    }
}

/// The lines of `s`, as `str::lines` gives them: split at `\n` (and `\r\n`),
/// with no empty line after a final line ending.
pub open spec fn lines_of(s: Seq<char>) -> Seq<Seq<char>>
    decreases s.len(),
{
    if s.len() == 0 {
        Seq::empty()
    } else {
        let k = line_len(s);
        if k < s.len() {
            seq![strip_cr(s.take(k as int))] + lines_of(s.skip((k + 1) as int))
        } else {
            seq![s]
        }
    }
}

pub proof fn lemma_line_len(s: Seq<char>, k: int)
    requires
        0 <= k <= s.len(),
        forall|j: int| 0 <= j < k ==> s[j] != '\n',
        k == s.len() || s[k] == '\n',
    ensures
        line_len(s) == k,
    decreases k,
{
    if k > 0 {
        let d = s.drop_first();
        assert forall|j: int| 0 <= j < k - 1 implies d[j] != '\n' by {
            assert(d[j] == s[j + 1]);
        }
        if k < s.len() {
            assert(d[k - 1] == s[k]);
        }
        lemma_line_len(d, k - 1);
    }
}

fn strip_cr_text(l: &str) -> (r: String)
    ensures
        r@ == strip_cr(l@),
{
    let n = l.unicode_len();
    if n > 0 && l.get_char(n - 1) == '\r' {
        String::from_str(l.substring_char(0, n - 1))
    } else {
        String::from_str(l)
    }
}

/// The lines of `s`, as `str::lines` gives them.
pub fn split_lines(s: &str) -> (r: Vec<String>)
    ensures
        r@.map_values(|l: String| l@) == lines_of(s@),
{
    let n = s.unicode_len();
    let mut out: Vec<String> = Vec::new();
    let mut start: usize = 0;
    let mut i: usize = 0;
    assert(s@.skip(0) =~= s@);
    assert(out@.map_values(|l: String| l@) + lines_of(s@) =~= lines_of(s@));
    while i < n
        invariant
            n == s@.len(),
            start <= i <= n,
            forall|j: int| start <= j < i ==> s@[j] != '\n',
            out@.map_values(|l: String| l@) + lines_of(s@.skip(start as int)) == lines_of(s@),
        decreases n - i,
    {
        if s.get_char(i) == '\n' {
            let ghost rest = s@.skip(start as int);
            proof {
                assert forall|j: int| 0 <= j < i - start implies rest[j] != '\n' by {
                    assert(rest[j] == s@[start + j]);
                }
                lemma_line_len(rest, i - start);
                assert(rest.take(i - start) =~= s@.subrange(start as int, i as int));
                assert(rest.skip(i - start + 1) =~= s@.skip(i + 1));
            }
            let line = strip_cr_text(s.substring_char(start, i));
            let ghost before = out@.map_values(|l: String| l@);
            out.push(line);
            assert(out@.map_values(|l: String| l@) =~= before.push(line@));
            assert(before.push(line@) + lines_of(s@.skip(i + 1)) =~= before + (seq![line@] + lines_of(s@.skip(i + 1))));
            start = i + 1;
        }
        i = i + 1;
    }
    if start < n {
        let ghost rest = s@.skip(start as int);
        proof {
            assert forall|j: int| 0 <= j < n - start implies rest[j] != '\n' by {
                assert(rest[j] == s@[start + j]);
            }
            lemma_line_len(rest, n - start);
        }
        let line = String::from_str(s.substring_char(start, n));
        assert(line@ =~= rest);
        let ghost before = out@.map_values(|l: String| l@);
        out.push(line);
        assert(out@.map_values(|l: String| l@) =~= before.push(line@));
        assert(lines_of(rest) =~= seq![rest]);
        assert(before.push(line@) =~= before + seq![rest]);
    } else {
        assert(s@.skip(start as int) =~= Seq::<char>::empty());
        assert(out@.map_values(|l: String| l@) + Seq::<Seq<char>>::empty() =~= out@.map_values(|l: String| l@));
    }
    out
}

} // verus!
