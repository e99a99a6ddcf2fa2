//! Fields of remote configurations: their names in title case, and their placeholders.
use vstd::prelude::*;
use vstd::string::StringExecFns;
use vstd::string::StrSliceExecFns;
use crate::text::{char_to_uppercase, unicode_uppercase};

verus! {

/// The words of a field name: its maximal runs of characters other than `_`, in order.
pub open spec fn field_words(s: Seq<char>) -> Seq<Seq<char>>
    decreases s.len(),
{
    if s.len() == 0 {
        Seq::empty()
    } else {
        let ws = field_words(s.drop_last());
        if s.last() == '_' {
            ws
        } else if s.len() >= 2 && s[s.len() - 2] != '_' {
            ws.drop_last().push(ws.last().push(s.last()))
        } else {
            ws.push(seq![s.last()])
        }
    }
}

/// A word with its first character in upper case.
pub open spec fn capitalized(w: Seq<char>) -> Seq<char> {
    unicode_uppercase(w[0]) + w.drop_first()
}

/// The words, each capitalized, joined by single spaces.
pub open spec fn title_words(ws: Seq<Seq<char>>) -> Seq<char>
    decreases ws.len(),
{
    if ws.len() == 0 {
        Seq::empty()
    } else if ws.len() == 1 {
        capitalized(ws[0])
    } else {
        title_words(ws.drop_last()) + seq![' '] + capitalized(ws.last())
    }
}

/// The spans `[start, end)` of `s` hold the words of `s.take(i)`.
pub open spec fn spans_hold(s: Seq<char>, i: int, spans: Seq<(usize, usize)>) -> bool {
    let ws = field_words(s.take(i));
    &&& spans.len() == ws.len()
    &&& forall|k: int| 0 <= k < spans.len() ==> {
        &&& (#[trigger] spans[k]).0 < spans[k].1 <= i
        &&& s.subrange(spans[k].0 as int, spans[k].1 as int) == ws[k]
    }
    &&& (i > 0 && s[i - 1] != '_') ==> spans.len() > 0 && spans.last().1 == i
}

fn word_spans(name: &str) -> (spans: Vec<(usize, usize)>)
    ensures
        spans_hold(name@, name@.len() as int, spans@),
{
    let n = name.unicode_len();
    let mut spans: Vec<(usize, usize)> = Vec::new();
    let mut i: usize = 0;
    assert(name@.take(0).len() == 0);
    while i < n
        invariant
            n == name@.len(),
            0 <= i <= n,
            spans_hold(name@, i as int, spans@),
        decreases n - i,
    {
        let c = name.get_char(i);
        let ghost s = name@;
        let ghost ws = field_words(s.take(i as int));
        assert(s.take(i + 1).drop_last() =~= s.take(i as int));
        assert(s.take(i + 1).last() == c);
        if c == '_' {
        } else if i >= 1 && name.get_char(i - 1) != '_' {
            let last = spans.len() - 1;
            let (start, _) = spans[last];
            spans.set(last, (start, i + 1));
            assert(s.subrange(start as int, i + 1) =~= s.subrange(start as int, i as int).push(c));
            assert forall|k: int| 0 <= k < spans@.len() implies {
                &&& (#[trigger] spans@[k]).0 < spans@[k].1 <= i + 1
                &&& s.subrange(spans@[k].0 as int, spans@[k].1 as int) == field_words(s.take(i + 1))[k]
            } by {
                if k < last {
                    assert(field_words(s.take(i + 1))[k] == ws[k]);
                }
            }
        } else {
            spans.push((i, i + 1));
            assert(s.subrange(i as int, i + 1) =~= seq![c]);
            assert forall|k: int| 0 <= k < spans@.len() implies {
                &&& (#[trigger] spans@[k]).0 < spans@[k].1 <= i + 1
                &&& s.subrange(spans@[k].0 as int, spans@[k].1 as int) == field_words(s.take(i + 1))[k]
            } by {
                if k < spans@.len() - 1 {
                    assert(field_words(s.take(i + 1))[k] == ws[k]);
                }
            }
        }
        i = i + 1;
    }
    assert(name@.take(n as int) =~= name@);
    spans
}

/// A field name in title case: its words (the runs between underscores, empty ones left
/// out), each with its first character in upper case, joined by single spaces.
/// `"access_key_id"` reads `"Access Key Id"`.
pub fn pretty_field_name(name: &str) -> (r: String)
    ensures
        r@ == title_words(field_words(name@)),
{
    let spans = word_spans(name);
    let ghost ws = field_words(name@);
    assert(name@.take(name@.len() as int) =~= name@);
    let mut out = String::new();
    let mut k: usize = 0;
    assert(ws.take(0) =~= Seq::<Seq<char>>::empty());
    while k < spans.len()
        invariant
            0 <= k <= spans@.len(),
            spans_hold(name@, name@.len() as int, spans@),
            ws == field_words(name@),
            ws == field_words(name@.take(name@.len() as int)),
            out@ == title_words(ws.take(k as int)),
        decreases spans@.len() - k,
    {
        let (start, end) = spans[k];
        assert(spans@[k as int].0 < spans@[k as int].1 <= name@.len());
        let ghost w = ws[k as int];
        assert(name@.subrange(start as int, end as int) == w);
        let ghost prev = out@;
        if k > 0 {
            out.append(" ");
        }
        let first = char_to_uppercase(name.get_char(start));
        out.append(first.as_str());
        out.append(name.substring_char(start + 1, end));
        proof {
            let t = ws.take(k + 1);
            assert(t.drop_last() =~= ws.take(k as int));
            assert(t.last() == w);
            assert(name@.subrange(start + 1, end as int) =~= w.drop_first());
            assert(w[0] == name@[start as int]);
            reveal_strlit(" ");
            if k == 0 {
                assert(out@ =~= title_words(t));
            } else {
                assert(title_words(t) == title_words(ws.take(k as int)) + seq![' '] + capitalized(w));
                assert(out@ =~= title_words(t));
            }
        }
        k = k + 1;
    }
    assert(ws.take(spans@.len() as int) =~= ws);
    out
}

/// The placeholder of a remote option's field: the value of its first example, else its
/// default value (which may be empty).
pub fn field_placeholder(example_values: &Vec<String>, default_value: &str) -> (r: String)
    ensures
        r@ == if example_values@.len() > 0 { example_values@[0]@ } else { default_value@ },
{
    if example_values.len() > 0 {
        return example_values[0].clone();
    }
    String::from_str(default_value)
}

} // verus!
