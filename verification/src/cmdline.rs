//! Helpers for the command-runner around the prompt: stripping newlines
//! from captured output and splitting a command string into the command
//! and its whitespace-delimited arguments.

use vstd::prelude::*;

use crate::chars::{is_newline, is_newline_x, is_wspace, is_wspace_x, str_eq};

verus! {

/// A string with its leading newline characters removed.
pub open spec fn drop_leading_nl(s: Seq<char>) -> Seq<char>
    decreases s.len(),
{
    if s.len() > 0 && is_newline(s[0]) {
        drop_leading_nl(s.drop_first())
    } else {
        s
    }
}

/// A string with its trailing newline characters removed.
pub open spec fn drop_trailing_nl(s: Seq<char>) -> Seq<char>
    decreases s.len(),
{
    if s.len() > 0 && is_newline(s.last()) {
        drop_trailing_nl(s.drop_last())
    } else {
        s
    }
}

/// A string with every newline character removed.
pub open spec fn remove_nl(s: Seq<char>) -> Seq<char>
    decreases s.len(),
{
    if s.len() == 0 {
        Seq::empty()
    } else {
        let rest = remove_nl(s.drop_last());
        if is_newline(s.last()) {
            rest
        } else {
            rest.push(s.last())
        }
    }
}

/// What `strip_newlines` returns for each stripping behavior.
pub open spec fn spec_strip_newlines(s: Seq<char>, behavior: Seq<char>) -> Seq<char> {
    if behavior == "leading"@ {
        drop_leading_nl(s)
    } else if behavior == "trailing"@ {
        drop_trailing_nl(s)
    } else {
        remove_nl(s)
    }
}

/// Dropping the leading newlines is skipping past the newline prefix.
proof fn lemma_drop_leading(s: Seq<char>, i: int)
    requires
        0 <= i <= s.len(),
        forall|j: int| 0 <= j < i ==> is_newline(#[trigger] s[j]),
        i < s.len() ==> !is_newline(s[i]),
    ensures
        drop_leading_nl(s) == s.skip(i),
    decreases i,
{
    if i == 0 {
        assert(s.skip(0) =~= s);
    } else {
        lemma_drop_leading(s.drop_first(), i - 1);
        assert(s.drop_first().skip(i - 1) =~= s.skip(i));
    }
}

/// Dropping the trailing newlines is taking the prefix before them.
proof fn lemma_drop_trailing(s: Seq<char>, i: int)
    requires
        0 <= i <= s.len(),
        forall|j: int| i <= j < s.len() ==> is_newline(#[trigger] s[j]),
        i > 0 ==> !is_newline(s[i - 1]),
    ensures
        drop_trailing_nl(s) == s.take(i),
    decreases s.len() - i,
{
    if i == s.len() {
        assert(s.take(i) =~= s);
    } else {
        assert(s.drop_last().take(i) =~= s.take(i));
        lemma_drop_trailing(s.drop_last(), i);
    }
}

/// Removes newlines either from the beginning, end, or throughout an
/// input string. Valid stripping behaviors are `leading`, `trailing`
/// and `all`.
pub fn strip_newlines(input: &str, behavior: &str) -> (r: String)
    requires
        behavior@ == "leading"@ || behavior@ == "trailing"@ || behavior@ == "all"@,
    ensures
        r@ == spec_strip_newlines(input@, behavior@),
{
    let n = input.unicode_len();
    if str_eq(behavior, "leading") {
        let mut i: usize = 0;
        while i < n && is_newline_x(input.get_char(i))
            invariant
                0 <= i <= n,
                n == input@.len(),
                forall|j: int| 0 <= j < i ==> is_newline(#[trigger] input@[j]),
            decreases n - i,
        {
            i += 1;
        }
        proof {
            lemma_drop_leading(input@, i as int);
        }
        let kept = input.substring_char(i, n);
        proof {
            assert(kept@ =~= input@.skip(i as int));
        }
        String::from_str(kept)
    } else if str_eq(behavior, "trailing") {
        let mut i: usize = n;
        while i > 0 && is_newline_x(input.get_char(i - 1))
            invariant
                0 <= i <= n,
                n == input@.len(),
                forall|j: int| i <= j < n ==> is_newline(#[trigger] input@[j]),
            decreases i,
        {
            i -= 1;
        }
        proof {
            lemma_drop_trailing(input@, i as int);
        }
        let kept = input.substring_char(0, i);
        proof {
            assert(kept@ =~= input@.take(i as int));
        }
        String::from_str(kept)
    } else {
        let mut out = String::new();
        let mut i: usize = 0;
        while i < n
            invariant
                0 <= i <= n,
                n == input@.len(),
                out@ == remove_nl(input@.take(i as int)),
            decreases n - i,
        {
            let c = input.get_char(i);
            proof {
                assert(input@.take(i + 1).drop_last() =~= input@.take(i as int));
                assert(input@.take(i + 1).last() == input@[i as int]);
            }
            if !is_newline_x(c) {
                let piece = input.substring_char(i, i + 1);
                proof {
                    assert(piece@ =~= seq![input@[i as int]]);
                }
                out.append(piece);
                proof {
                    assert(out@ =~= remove_nl(input@.take(i + 1)));
                }
            }
            i += 1;
        }
        proof {
            assert(input@.take(n as int) =~= input@);
        }
        out
    }
}

/// The whitespace-delimited words of a string, in order, each
/// non-empty.
pub open spec fn split_ws(s: Seq<char>) -> Seq<Seq<char>>
    decreases s.len(),
{
    if s.len() == 0 {
        Seq::empty()
    } else {
        let rest = split_ws(s.drop_last());
        let c = s.last();
        if is_wspace(c) {
            rest
        } else if s.len() >= 2 && !is_wspace(s[s.len() - 2]) {
            rest.update(rest.len() - 1, rest.last().push(c))
        } else {
            rest.push(seq![c])
        }
    }
}

/// A string that ends in a non-space yields at least one word.
proof fn lemma_split_ws_nonempty(s: Seq<char>)
    requires
        s.len() > 0,
        !is_wspace(s.last()),
    ensures
        split_ws(s).len() >= 1,
    decreases s.len(),
{
    if s.len() >= 2 && !is_wspace(s[s.len() - 2]) {
        lemma_split_ws_nonempty(s.drop_last());
    }
}

/// How the words evolve as one more character is read.
proof fn lemma_split_ws_step(s: Seq<char>, i: int)
    requires
        0 <= i < s.len(),
    ensures
        is_wspace(s[i]) ==> split_ws(s.take(i + 1)) == split_ws(s.take(i)),
        !is_wspace(s[i]) && (i == 0 || is_wspace(s[i - 1])) ==> split_ws(s.take(i + 1)) == split_ws(
            s.take(i),
        ).push(seq![s[i]]),
        !is_wspace(s[i]) && i > 0 && !is_wspace(s[i - 1]) ==> split_ws(s.take(i)).len() >= 1
            && split_ws(s.take(i + 1)) == split_ws(s.take(i)).update(
            split_ws(s.take(i)).len() - 1,
            split_ws(s.take(i)).last().push(s[i]),
        ),
{
    assert(s.take(i + 1).drop_last() =~= s.take(i));
    assert(s.take(i + 1).last() == s[i]);
    if !is_wspace(s[i]) && i > 0 && !is_wspace(s[i - 1]) {
        lemma_split_ws_nonempty(s.take(i));
    }
}

/// Splits a string into its whitespace-delimited words.
fn split_ws_x(s: &str) -> (v: Vec<String>)
    ensures
        v.deep_view() == split_ws(s@),
{
    let n = s.unicode_len();
    let mut v: Vec<String> = Vec::new();
    proof {
        assert(v.deep_view() =~~= split_ws(s@.take(0)));
    }
    let mut i: usize = 0;
    let mut prev_ws = true;
    while i < n
        invariant
            i <= n,
            n == s@.len(),
            v.deep_view() == split_ws(s@.take(i as int)),
            prev_ws == (i == 0 || is_wspace(s@[i - 1])),
        decreases n - i,
    {
        let c = s.get_char(i);
        let ghost old_dv = v.deep_view();
        proof {
            lemma_split_ws_step(s@, i as int);
        }
        if is_wspace_x(c) {
            prev_ws = true;
        } else {
            let piece = s.substring_char(i, i + 1);
            proof {
                assert(piece@ =~= seq![s@[i as int]]);
            }
            if prev_ws {
                v.push(String::from_str(piece));
                proof {
                    assert(v.deep_view() =~~= old_dv.push(seq![s@[i as int]]));
                }
            } else {
                let mut last_piece = match v.pop() {
                    Some(p) => p,
                    None => String::new(),
                };
                last_piece.append(piece);
                v.push(last_piece);
                proof {
                    assert(old_dv.last().push(s@[i as int]) =~= old_dv.last() + piece@);
                    assert(v.deep_view() =~~= old_dv.update(
                        old_dv.len() - 1,
                        old_dv.last().push(s@[i as int]),
                    ));
                }
            }
            prev_ws = false;
        }
        i += 1;
    }
    proof {
        assert(s@.take(n as int) =~= s@);
    }
    v
}

/// What `split_options_from_command` returns: the first word as the
/// command, the remaining words as its arguments — both empty for a
/// blank string.
pub open spec fn spec_split_options(s: Seq<char>) -> (Seq<char>, Seq<Seq<char>>) {
    let words = split_ws(s);
    if words.len() == 0 {
        (Seq::empty(), Seq::empty())
    } else {
        (words[0], words.drop_first())
    }
}

/// Separates the whitespace-delimited arguments passed to a command in
/// a string. Returns a tuple with the first element being the command
/// itself, and the second element holding each argument.
pub fn split_options_from_command(input: &str) -> (r: (String, Vec<String>))
    ensures
        r.0@ == spec_split_options(input@).0,
        r.1.deep_view() == spec_split_options(input@).1,
{
    let mut words = split_ws_x(input);
    if words.len() == 0 {
        proof {
            assert(Seq::<Seq<char>>::empty() =~~= spec_split_options(input@).1);
        }
        (String::new(), Vec::new())
    } else {
        let ghost wv = words.deep_view();
        let first = words.remove(0);
        proof {
            assert(words.deep_view() =~~= wv.drop_first());
        }
        (first, words)
    }
}

} // verus!
