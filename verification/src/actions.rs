//! Splitting a configured action string into a command and its arguments.
//!
//! An action setting is one string, `"<command> [args...]"`; the loop needs
//! it as a command name plus an ordered argument list.  The split is on runs
//! of ASCII blanks (spaces and tabs), and the byte tokens come out in order
//! with the separators removed.

use vstd::prelude::*;

verus! {

/// A byte that separates tokens of an action string.
pub open spec fn is_blank(b: u8) -> bool {
    b == 32 || b == 9
}

/// Scanning state after reading `s` left to right: the tokens finished so
/// far, and the partial token in progress (empty while between tokens).
pub open spec fn scan_state(s: Seq<u8>) -> (Seq<Seq<u8>>, Seq<u8>)
    decreases s.len(),
{
    if s.len() == 0 {
        (Seq::<Seq<u8>>::empty(), Seq::<u8>::empty())
    } else {
        let prev = scan_state(s.drop_last());
        let b = s.last();
        if is_blank(b) {
            if prev.1.len() == 0 {
                (prev.0, Seq::<u8>::empty())
            } else {
                (prev.0.push(prev.1), Seq::<u8>::empty())
            }
        } else {
            (prev.0, prev.1.push(b))
        }
    }
}

/// The blank-separated tokens of `s`, in order.
pub open spec fn split_ws(s: Seq<u8>) -> Seq<Seq<u8>> {
    let st = scan_state(s);
    if st.1.len() == 0 {
        st.0
    } else {
        st.0.push(st.1)
    }
}

/// The byte sequences held by a vector of byte tokens.
pub open spec fn views_of(v: Seq<Vec<u8>>) -> Seq<Seq<u8>> {
    v.map_values(|x: Vec<u8>| x@)
}

proof fn lemma_views_push(v: Seq<Vec<u8>>, t: Vec<u8>)
    ensures
        views_of(v.push(t)) =~= views_of(v).push(t@),
{
}

/// Split an action string into its tokens: the first is the command, the
/// rest are its arguments, in order.
pub fn split_action(s: &[u8]) -> (r: Vec<Vec<u8>>)
    ensures
        views_of(r@) == split_ws(s@),
{
    let mut toks: Vec<Vec<u8>> = Vec::new();
    let mut cur: Vec<u8> = Vec::new();
    let mut i: usize = 0;
    proof {
        assert(s@.take(0) =~= Seq::<u8>::empty());
        assert(views_of(toks@) =~= scan_state(s@.take(0)).0);
    }
    while i < s.len()
        invariant
            0 <= i <= s@.len(),
            views_of(toks@) == scan_state(s@.take(i as int)).0,
            cur@ == scan_state(s@.take(i as int)).1,
        decreases s@.len() - i,
    {
        let ghost prefix = s@.take(i as int);
        let b = s[i];
        proof {
            assert(s@.take(i + 1).drop_last() =~= prefix);
            assert(s@.take(i + 1).last() == s@[i as int]);
        }
        if b == 32 || b == 9 {
            if cur.len() > 0 {
                let ghost old_toks = toks@;
                let done = cur;
                cur = Vec::new();
                toks.push(done);
                proof {
                    lemma_views_push(old_toks, toks@.last());
                }
            }
        } else {
            cur.push(b);
        }
        i += 1;
    }
    proof {
        assert(s@.take(s@.len() as int) =~= s@);
    }
    if cur.len() > 0 {
        let ghost old_toks = toks@;
        toks.push(cur);
        proof {
            lemma_views_push(old_toks, toks@.last());
        }
    }
    toks
}

/// Law: every token of a split is non-empty and free of blanks.
pub proof fn lemma_split_tokens(s: Seq<u8>)
    ensures
        forall|i: int| 0 <= i < split_ws(s).len() ==> (#[trigger] split_ws(s)[i]).len() > 0,
        forall|i: int, j: int|
            0 <= i < split_ws(s).len() && 0 <= j < split_ws(s)[i].len() ==> !is_blank(
                #[trigger] split_ws(s)[i][j],
            ),
{
    lemma_scan_tokens(s);
}

proof fn lemma_scan_tokens(s: Seq<u8>)
    ensures
        forall|i: int|
            0 <= i < scan_state(s).0.len() ==> (#[trigger] scan_state(s).0[i]).len() > 0,
        forall|i: int, j: int|
            0 <= i < scan_state(s).0.len() && 0 <= j < scan_state(s).0[i].len() ==> !is_blank(
                #[trigger] scan_state(s).0[i][j],
            ),
        forall|j: int| 0 <= j < scan_state(s).1.len() ==> !is_blank(#[trigger] scan_state(s).1[j]),
    decreases s.len(),
{
    if s.len() > 0 {
        lemma_scan_tokens(s.drop_last());
        let prev = scan_state(s.drop_last());
        let b = s.last();
        if is_blank(b) && prev.1.len() > 0 {
            assert(scan_state(s).0 == prev.0.push(prev.1));
            assert forall|i: int|
                0 <= i < scan_state(s).0.len() implies (#[trigger] scan_state(s).0[i]).len()
                > 0 by {
                if i < prev.0.len() {
                    assert(scan_state(s).0[i] == prev.0[i]);
                } else {
                    assert(scan_state(s).0[i] == prev.1);
                }
            }
            assert forall|i: int, j: int|
                0 <= i < scan_state(s).0.len() && 0 <= j < scan_state(s).0[i].len()
                implies !is_blank(#[trigger] scan_state(s).0[i][j]) by {
                if i < prev.0.len() {
                    assert(scan_state(s).0[i] == prev.0[i]);
                } else {
                    assert(scan_state(s).0[i] == prev.1);
                }
            }
        } else if !is_blank(b) {
            assert(scan_state(s).1 == prev.1.push(b));
            assert forall|j: int|
                0 <= j < scan_state(s).1.len() implies !is_blank(
                #[trigger] scan_state(s).1[j],
            ) by {
                if j < prev.1.len() {
                    assert(scan_state(s).1[j] == prev.1[j]);
                } else {
                    assert(scan_state(s).1[j] == b);
                }
            }
        }
    }
}

} // verus!
