//! Text helpers for display.
use vstd::prelude::*;

verus! {

/// Each character in turn, with a space put before every one that sorts before the letter a.
pub open spec fn spaced(cs: Seq<char>) -> Seq<char>
    decreases cs.len(),
{
    if cs.len() == 0 {
        Seq::empty()
    } else {
        let rest = spaced(cs.drop_last());
        let c = cs.last();
        if 'a' > c {
            rest + seq![' ', c]
        } else {
            rest.push(c)
        }
    }
}

/// The first character as it is, then the rest spaced: `"HelloWorld"` reads `"Hello World"`.
pub open spec fn converted(s: Seq<char>) -> Seq<char> {
    if s.len() == 0 {
        s
    } else {
        seq![s[0]] + spaced(s.subrange(1, s.len() as int))
    }
}

/// Splits a camel-case name into words for display.
pub fn convert_case(text: String) -> (r: String)
    ensures
        r@ == converted(text@),
{
    let s = text.as_str();
    let n = s.unicode_len();
    let mut out = String::new();
    if n == 0 {
        return out;
    }
    out.append(s.substring_char(0, 1));
    proof {
        assert(s@.subrange(1, 1).len() == 0);
        assert(out@ =~= seq![s@[0]] + spaced(s@.subrange(1, 1)));
    }
    let mut i: usize = 1;
    while i < n
        invariant
            1 <= i <= n,
            n == s@.len(),
            out@ == seq![s@[0]] + spaced(s@.subrange(1, i as int)),
        decreases n - i,
    {
        let c = s.get_char(i);
        let ghost prev = out@;
        if 'a' > c {
            out.append(" ");
        }
        out.append(s.substring_char(i, i + 1));
        proof {
            let t = s@.subrange(1, i + 1);
            assert(t.drop_last() =~= s@.subrange(1, i as int));
            assert(t.last() == c);
            assert(s@.subrange(i as int, i + 1) =~= seq![c]);
            reveal_strlit(" ");
            assert(" "@ =~= seq![' ']);
            if 'a' > c {
                assert(spaced(t) == spaced(t.drop_last()) + seq![' ', c]);
            } else {
                assert(spaced(t) == spaced(t.drop_last()).push(c));
            }
            assert(out@ =~= seq![s@[0]] + spaced(t));
        }
        i += 1;
    }
    proof {
        assert(s@.subrange(1, n as int) =~= text@.subrange(1, text@.len() as int));
    }
    out
}

} // verus!
