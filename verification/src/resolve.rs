//! Disambiguation of operator input against a list of known names, and the
//! reading of a tag back out of a selected prompt line. The prompting itself
//! is the shell's; what the input means is decided here.

use vstd::prelude::*;
use crate::text;
use crate::text::is_space_char;

verus! {

/// How an operator's input relates to the known names: an exact match, one
/// partial match to suggest, several to choose among, or none.
pub enum MatchOutcome {
    Exact,
    Single(String),
    Multiple(Vec<String>),
    NoMatch,
}

/// The names that contain the input as a substring, in their given order.
pub open spec fn partial_matches(items: Seq<Seq<char>>, input: Seq<char>) -> Seq<Seq<char>> {
    items.filter(|it: Seq<char>| text::contains_seq(it, input))
}

/// Classifies the operator's input: exact when it names an item outright,
/// else by how many items contain it.
pub fn match_candidates(items: &Vec<String>, input: &str) -> (r: MatchOutcome)
    ensures
        (r is Exact) == items.deep_view().contains(input@),
        r matches MatchOutcome::NoMatch ==> partial_matches(items.deep_view(), input@).len() == 0,
        r matches MatchOutcome::Single(s) ==> partial_matches(items.deep_view(), input@) == seq![
            s@,
        ],
        r matches MatchOutcome::Multiple(v) ==> v.deep_view() == partial_matches(
            items.deep_view(),
            input@,
        ) && v.deep_view().len() >= 2,
{
    let n = items.len();
    let mut i: usize = 0;
    while i < n
        invariant
            n == items@.len(),
            0 <= i <= n,
            forall|k: int| 0 <= k < i ==> items.deep_view()[k] != input@,
        decreases n - i,
    {
        if text::str_eq(items[i].as_str(), input) {
            proof {
                assert(items.deep_view()[i as int] == input@);
            }
            return MatchOutcome::Exact;
        }
        i = i + 1;
    }
    let ghost pred = |it: Seq<char>| text::contains_seq(it, input@);
    let mut matched: Vec<String> = Vec::new();
    let mut j: usize = 0;
    proof {
        reveal(Seq::filter);
        assert(items.deep_view().take(0) =~= Seq::<Seq<char>>::empty());
        assert(matched.deep_view() =~= items.deep_view().take(0).filter(pred));
    }
    while j < n
        invariant
            n == items@.len(),
            0 <= j <= n,
            pred == (|it: Seq<char>| text::contains_seq(it, input@)),
            matched.deep_view() == items.deep_view().take(j as int).filter(pred),
        decreases n - j,
    {
        let ghost before = matched.deep_view();
        let hit = text::contains_str(items[j].as_str(), input);
        if hit {
            matched.push(items[j].clone());
        }
        proof {
            reveal(Seq::filter);
            let dv = items.deep_view();
            assert(dv.take(j + 1).drop_last() =~= dv.take(j as int));
            assert(dv.take(j + 1).last() == dv[j as int]);
            if hit {
                assert(matched.deep_view() =~= before.push(dv[j as int]));
            }
            assert(matched.deep_view() == dv.take(j + 1).filter(pred));
        }
        j = j + 1;
    }
    proof {
        assert(items.deep_view().take(n as int) =~= items.deep_view());
    }
    if matched.len() == 0 {
        MatchOutcome::NoMatch
    } else if matched.len() == 1 {
        let s = matched[0].clone();
        proof {
            assert(matched.deep_view() =~= seq![s@]);
        }
        MatchOutcome::Single(s)
    } else {
        MatchOutcome::Multiple(matched)
    }
}

/// The leading run of non-white-space characters.
pub open spec fn leading_run(s: Seq<char>) -> Seq<char>
    decreases s.len(),
{
    if s.len() > 0 && !is_space_char(s[0]) {
        seq![s[0]] + leading_run(s.drop_first())
    } else {
        Seq::<char>::empty()
    }
}

/// `s` with every trailing comma removed.
pub open spec fn drop_trailing_commas(s: Seq<char>) -> Seq<char>
    decreases s.len(),
{
    if s.len() > 0 && s.last() == ',' {
        drop_trailing_commas(s.drop_last())
    } else {
        s
    }
}

/// The tag a selected prompt line denotes: its first white-space-separated
/// token, with trailing commas removed.
pub open spec fn selected_tag_spec(line: Seq<char>) -> Seq<char> {
    drop_trailing_commas(leading_run(text::trim_start_seq(line)))
}

/// Reads the tag back out of the prompt line the operator selected.
pub fn selected_tag(line: &str) -> (r: String)
    ensures
        r@ == selected_tag_spec(line@),
{
    let len = line.unicode_len();
    proof {
        assert(line@.subrange(0, len as int) =~= line@);
    }
    let mut lo: usize = 0;
    while lo < len && text::is_space(line.get_char(lo))
        invariant
            len == line@.len(),
            0 <= lo <= len,
            text::trim_start_seq(line@) == text::trim_start_seq(
                line@.subrange(lo as int, len as int),
            ),
        decreases len - lo,
    {
        proof {
            let sub = line@.subrange(lo as int, len as int);
            assert(sub.drop_first() =~= line@.subrange(lo + 1, len as int));
        }
        lo = lo + 1;
    }
    proof {
        let sub = line@.subrange(lo as int, len as int);
        if lo == len {
            assert(sub.len() == 0);
        }
        assert(text::trim_start_seq(line@) == sub);
    }
    let mut hi: usize = lo;
    while hi < len && !text::is_space(line.get_char(hi))
        invariant
            len == line@.len(),
            0 <= lo <= hi <= len,
            text::trim_start_seq(line@) == line@.subrange(lo as int, len as int),
            leading_run(line@.subrange(lo as int, len as int)) == line@.subrange(
                lo as int,
                hi as int,
            ) + leading_run(line@.subrange(hi as int, len as int)),
        decreases len - hi,
    {
        proof {
            let sub = line@.subrange(hi as int, len as int);
            assert(sub.drop_first() =~= line@.subrange(hi + 1, len as int));
            assert(seq![line@[hi as int]] + line@.subrange(hi + 1, len as int) =~= line@.subrange(
                hi as int,
                len as int,
            ));
            assert(line@.subrange(lo as int, hi as int) + seq![line@[hi as int]] =~= line@.subrange(
                lo as int,
                hi + 1,
            ));
        }
        hi = hi + 1;
    }
    proof {
        let sub = line@.subrange(hi as int, len as int);
        if hi == len {
            assert(sub.len() == 0);
        }
        assert(leading_run(sub) =~= Seq::<char>::empty());
        assert(leading_run(text::trim_start_seq(line@)) == line@.subrange(lo as int, hi as int));
    }
    let mut e: usize = hi;
    while e > lo && line.get_char(e - 1) == ','
        invariant
            len == line@.len(),
            0 <= lo <= e <= hi <= len,
            leading_run(text::trim_start_seq(line@)) == line@.subrange(lo as int, hi as int),
            drop_trailing_commas(line@.subrange(lo as int, hi as int)) == drop_trailing_commas(
                line@.subrange(lo as int, e as int),
            ),
        decreases e,
    {
        proof {
            let sub = line@.subrange(lo as int, e as int);
            assert(sub.last() == line@[e - 1]);
            assert(sub.drop_last() =~= line@.subrange(lo as int, e - 1));
        }
        e = e - 1;
    }
    proof {
        let sub = line@.subrange(lo as int, e as int);
        if e == lo {
            assert(sub.len() == 0);
        } else {
            assert(sub.last() == line@[e - 1]);
        }
        assert(selected_tag_spec(line@) == sub);
    }
    line.substring_char(lo, e).to_owned()
}

} // verus!
