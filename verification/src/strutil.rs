//! Small string helpers: character-wise equality, splitting text into
//! lines, and building a one-character string.

use vstd::prelude::*;
use vstd::string::{StrSliceExecFns, StringExecFns};

verus! {

/// Character-wise equality of two string slices.
pub fn str_eq(a: &str, b: &str) -> (r: bool)
    ensures
        r == (a@ == b@),
{
    let na = a.unicode_len();
    let nb = b.unicode_len();
    if na != nb {
        return false;
    }
    let mut i: usize = 0;
    while i < na
        invariant
            i <= na,
            na == a@.len(),
            nb == b@.len(),
            na == nb,
            forall|j: int| 0 <= j < i ==> a@[j] == b@[j],
        decreases na - i,
    {
        if a.get_char(i) != b.get_char(i) {
            return false;
        }
        i += 1;
    }
    proof {
        assert(a@ =~= b@);
    }
    true
}

/// Relies on `String::from` for `char`: the returned string holds exactly
/// that one character.
#[verifier::external_body]
pub fn char_to_string(c: char) -> (s: String)
    ensures
        s@ == seq![c],
{
    String::from(c)
}

/// The lines of a text, split at `'\n'` or `"\r\n"`; a line ending at the
/// very end of the text is optional and adds no empty final line.
pub open spec fn lines_of(s: Seq<char>) -> Seq<Seq<char>>
    decreases s.len(),
{
    if s.len() == 0 {
        Seq::empty()
    } else if s[0] == '\n' {
        seq![Seq::<char>::empty()] + lines_of(s.drop_first())
    } else if s[0] == '\r' && s.len() >= 2 && s[1] == '\n' {
        seq![Seq::<char>::empty()] + lines_of(s.skip(2))
    } else {
        let rest = lines_of(s.drop_first());
        if rest.len() == 0 {
            seq![seq![s[0]]]
        } else {
            seq![seq![s[0]] + rest[0]] + rest.drop_first()
        }
    }
}

/// A text without line breaks is one single line.
proof fn lemma_lines_nobreak(s: Seq<char>)
    requires
        s.len() > 0,
        forall|j: int| 0 <= j < s.len() ==> s[j] != '\n',
    ensures
        lines_of(s) =~~= seq![s],
    decreases s.len(),
{
    if s.len() == 1 {
        assert(s.drop_first().len() == 0);
        assert(lines_of(s.drop_first()) == Seq::<Seq<char>>::empty());
        assert(lines_of(s) == seq![seq![s[0]]]);
        assert(seq![s[0]] =~= s);
    } else {
        let sd = s.drop_first();
        assert forall|j: int| 0 <= j < sd.len() implies sd[j] != '\n' by {
            assert(sd[j] == s[j + 1]);
        }
        lemma_lines_nobreak(sd);
        assert(lines_of(sd).len() == 1);
        assert(lines_of(sd)[0] == sd);
        assert(lines_of(sd).drop_first() =~~= Seq::<Seq<char>>::empty());
        assert(lines_of(s) == seq![seq![s[0]] + sd] + lines_of(sd).drop_first());
        assert(seq![s[0]] + sd =~= s);
    }
}

/// Splitting off the first line: if the first `'\n'` of `s` stands at `k`,
/// the lines of `s` are the first `k` characters (their trailing `'\r'`
/// dropped, if any) followed by the lines of the rest.
proof fn lemma_lines_split(s: Seq<char>, k: int)
    requires
        0 <= k < s.len(),
        s[k] == '\n',
        forall|j: int| 0 <= j < k ==> s[j] != '\n',
    ensures
        lines_of(s) =~~= seq![
            if k > 0 && s[k - 1] == '\r' {
                s.take(k - 1)
            } else {
                s.take(k)
            },
        ] + lines_of(s.skip(k + 1)),
    decreases s.len(),
{
    if k == 0 {
        assert(s.take(0) =~= Seq::<char>::empty());
        assert(s.drop_first() =~= s.skip(1));
    } else if k == 1 && s[0] == '\r' {
        assert(s.take(0) =~= Seq::<char>::empty());
        assert(s.skip(2) =~= s.skip(k + 1));
    } else {
        let sd = s.drop_first();
        assert forall|j: int| 0 <= j < k - 1 implies sd[j] != '\n' by {
            assert(sd[j] == s[j + 1]);
        }
        assert(sd[k - 1] == s[k] == '\n');
        lemma_lines_split(sd, k - 1);
        assert(s[0] != '\n');
        assert(!(s[0] == '\r' && s.len() >= 2 && s[1] == '\n')) by {
            if s[0] == '\r' && s.len() >= 2 && s[1] == '\n' {
                assert(k >= 2);
                assert(s[1] != '\n');
            }
        }
        let first_rest = if k - 1 > 0 && sd[k - 2] == '\r' {
            sd.take(k - 2)
        } else {
            sd.take(k - 1)
        };
        assert(lines_of(sd) == seq![first_rest] + lines_of(sd.skip(k)));
        assert(lines_of(sd)[0] == first_rest);
        assert(lines_of(sd).len() > 0);
        assert(lines_of(s) == seq![seq![s[0]] + first_rest] + lines_of(sd).drop_first());
        assert(lines_of(sd).drop_first() =~~= lines_of(sd.skip(k)));
        assert(sd.skip(k) =~= s.skip(k + 1));
        if k - 1 > 0 && sd[k - 2] == '\r' {
            assert(s[k - 1] == '\r');
            assert(seq![s[0]] + sd.take(k - 2) =~= s.take(k - 1));
        } else {
            assert(seq![s[0]] + sd.take(k - 1) =~= s.take(k));
        }
    }
}

/// Split `text` into its lines, as `lines_of` describes.
pub fn split_lines(text: &str) -> (r: Vec<String>)
    ensures
        r.deep_view() == lines_of(text@),
{
    let n = text.unicode_len();
    let mut out: Vec<String> = Vec::new();
    let mut start: usize = 0;
    let mut i: usize = 0;
    proof {
        assert(text@.skip(0) =~= text@);
        assert(out.deep_view() =~~= Seq::<Seq<char>>::empty());
        assert(out.deep_view() + lines_of(text@) =~~= lines_of(text@));
    }
    while i < n
        invariant
            start <= i <= n,
            n == text@.len(),
            forall|j: int| start <= j < i ==> text@[j] != '\n',
            lines_of(text@) =~~= out.deep_view() + lines_of(text@.skip(start as int)),
        decreases n - i,
    {
        let c = text.get_char(i);
        if c == '\n' {
            let end = if i > start && text.get_char(i - 1) == '\r' {
                i - 1
            } else {
                i
            };
            let piece = text.substring_char(start, end).to_owned();
            proof {
                let tail = text@.skip(start as int);
                assert(tail[i - start as int] == text@[i as int]);
                assert forall|j: int| 0 <= j < i - start as int implies tail[j] != '\n' by {
                    assert(tail[j] == text@[j + start]);
                }
                lemma_lines_split(tail, i - start as int);
                if i > start && text@[i - 1] == '\r' {
                    assert(tail[i - start as int - 1] == '\r');
                    assert(tail.take(i - start as int - 1) =~= text@.subrange(
                        start as int,
                        end as int,
                    ));
                } else {
                    assert(tail.take(i - start as int) =~= text@.subrange(
                        start as int,
                        end as int,
                    ));
                }
                assert(tail.skip(i - start as int + 1) =~= text@.skip(i + 1));
            }
            let ghost pre = out.deep_view();
            out.push(piece);
            proof {
                assert(out.deep_view() =~~= pre.push(piece@));
                assert(pre + (seq![piece@] + lines_of(text@.skip(i + 1))) =~~= pre.push(piece@)
                    + lines_of(text@.skip(i + 1)));
            }
            start = i + 1;
        }
        i += 1;
    }
    if start < n {
        let piece = text.substring_char(start, n).to_owned();
        proof {
            let tail = text@.skip(start as int);
            assert forall|j: int| 0 <= j < tail.len() implies tail[j] != '\n' by {
                assert(tail[j] == text@[j + start]);
            }
            lemma_lines_nobreak(tail);
            assert(tail =~= text@.subrange(start as int, n as int));
        }
        let ghost pre = out.deep_view();
        out.push(piece);
        proof {
            assert(out.deep_view() =~~= pre.push(piece@));
            assert(pre + seq![piece@] =~~= pre.push(piece@));
            assert(out.deep_view() =~~= lines_of(text@));
        }
    } else {
        proof {
            assert(text@.skip(start as int) =~= Seq::<char>::empty());
            assert(lines_of(text@.skip(start as int)) == Seq::<Seq<char>>::empty());
            assert(out.deep_view() + Seq::<Seq<char>>::empty() =~~= out.deep_view());
        }
    }
    out
}

} // verus!
