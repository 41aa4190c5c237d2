//! Tab completion for the first word of a line: builtin names and the
//! executables found on `PATH`, filtered by the typed prefix, sorted, and
//! deduplicated.
//!
//! The completer itself only computes: the driver reads the `PATH`
//! directories and passes the executable names in; what comes back is the
//! candidate list and the position the replacement starts at.

use vstd::prelude::*;
use vstd::string::*;
use crate::text::{is_blank, push_char, str_eq};

verus! {

/// Strict lexicographic order on character sequences, by code point.
pub open spec fn chars_lt(a: Seq<char>, b: Seq<char>) -> bool
    decreases a.len(),
{
    if b.len() == 0 {
        false
    } else if a.len() == 0 {
        true
    } else if a[0] < b[0] {
        true
    } else if a[0] > b[0] {
        false
    } else {
        chars_lt(a.skip(1), b.skip(1))
    }
}

/// The order is total: two sequences compare one way, the other way, or are
/// equal.
proof fn lemma_chars_lt_total(a: Seq<char>, b: Seq<char>)
    ensures
        chars_lt(a, b) || chars_lt(b, a) || a == b,
    decreases a.len(),
{
    if b.len() == 0 {
        if a.len() == 0 {
            assert(a =~= b);
        }
    } else if a.len() == 0 {
    } else if a[0] < b[0] || a[0] > b[0] {
    } else {
        lemma_chars_lt_total(a.skip(1), b.skip(1));
        if !chars_lt(a, b) && !chars_lt(b, a) {
            assert(a.skip(1) == b.skip(1));
            assert(a[0] == b[0]);
            assert forall|i: int| 0 <= i < a.len() implies a[i] == b[i] by {
                if i > 0 {
                    assert(a[i] == a.skip(1)[i - 1]);
                    assert(b[i] == b.skip(1)[i - 1]);
                }
            }
            assert(a =~= b);
        }
    }
}

/// Compares two names in the order of [`chars_lt`].
pub fn str_lt(a: &str, b: &str) -> (r: bool)
    ensures
        r == chars_lt(a@, b@),
{
    let alen = a.unicode_len();
    let blen = b.unicode_len();
    let mut i: usize = 0;
    proof {
        assert(a@.skip(0) =~= a@);
        assert(b@.skip(0) =~= b@);
    }
    while i < alen && i < blen
        invariant
            alen == a@.len(),
            blen == b@.len(),
            i <= alen,
            i <= blen,
            chars_lt(a@, b@) == chars_lt(a@.skip(i as int), b@.skip(i as int)),
        decreases alen - i,
    {
        let ca = a.get_char(i);
        let cb = b.get_char(i);
        proof {
            assert(a@.skip(i as int)[0] == a@[i as int]);
            assert(b@.skip(i as int)[0] == b@[i as int]);
            assert(a@.skip(i as int).skip(1) =~= a@.skip(i + 1));
            assert(b@.skip(i as int).skip(1) =~= b@.skip(i + 1));
        }
        if ca < cb {
            return true;
        }
        if ca > cb {
            return false;
        }
        i = i + 1;
    }
    proof {
        assert(a@.skip(i as int).len() == alen - i);
        assert(b@.skip(i as int).len() == blen - i);
    }
    alen < blen
}

/// Whether `prefix` is a prefix of `s`.
pub open spec fn starts_with(s: Seq<char>, prefix: Seq<char>) -> bool {
    prefix.len() <= s.len() && s.take(prefix.len() as int) == prefix
}

/// Tests whether `s` starts with `prefix`.
pub fn str_starts_with(s: &str, prefix: &str) -> (r: bool)
    ensures
        r == starts_with(s@, prefix@),
{
    let slen = s.unicode_len();
    let plen = prefix.unicode_len();
    if plen > slen {
        return false;
    }
    let mut i: usize = 0;
    while i < plen
        invariant
            slen == s@.len(),
            plen == prefix@.len(),
            plen <= slen,
            i <= plen,
            forall|j: int| 0 <= j < i ==> s@[j] == prefix@[j],
        decreases plen - i,
    {
        if s.get_char(i) != prefix.get_char(i) {
            proof {
                assert(s@.take(plen as int)[i as int] == s@[i as int]);
            }
            return false;
        }
        i = i + 1;
    }
    proof {
        assert(s@.take(plen as int) =~= prefix@);
    }
    true
}

/// State of the word scan over the typed input.
pub struct WordState {
    pub cur: Seq<char>,
    pub words: Seq<Seq<char>>,
}

/// One step of the word scan: a blank ends the current word, which is kept
/// only when non-empty.
pub open spec fn word_step(st: WordState, c: char) -> WordState {
    if is_blank(c) {
        WordState {
            cur: Seq::empty(),
            words: if st.cur.len() > 0 {
                st.words.push(st.cur)
            } else {
                st.words
            },
        }
    } else {
        WordState { cur: st.cur.push(c), words: st.words }
    }
}

/// The word scan over all of `s`.
pub open spec fn word_fold(st: WordState, s: Seq<char>) -> WordState
    decreases s.len(),
{
    if s.len() == 0 {
        st
    } else {
        word_step(word_fold(st, s.drop_last()), s.last())
    }
}

/// The blank-separated words of `s`.
pub open spec fn words_of(s: Seq<char>) -> Seq<Seq<char>> {
    let st = word_fold(WordState { cur: Seq::empty(), words: Seq::empty() }, s);
    if st.cur.len() > 0 {
        st.words.push(st.cur)
    } else {
        st.words
    }
}

/// The prefix under completion, when the cursor stands in the first word:
/// the word itself, or an empty prefix on an empty input.  Nothing when the
/// input already has several words or ends in a space.
pub open spec fn completion_prefix(input: Seq<char>) -> Option<Seq<char>> {
    if input.len() > 0 && input.last() == ' ' {
        Option::None
    } else {
        let w = words_of(input);
        if w.len() == 0 {
            Option::Some(Seq::empty())
        } else if w.len() == 1 {
            Option::Some(w[0])
        } else {
            Option::None
        }
    }
}

/// One completion candidate: what to show and what to type.
pub struct CompletionCandidate {
    pub display: String,
    pub replacement: String,
}

/// Candidate names in strictly increasing order (hence distinct).
pub open spec fn sorted_distinct(names: Seq<Seq<char>>) -> bool {
    forall|i: int| 0 <= i < names.len() - 1 ==> chars_lt(#[trigger] names[i], names[i + 1])
}

/// Whether `n` occurs in `names`.
pub open spec fn has_name(names: Seq<Seq<char>>, n: Seq<char>) -> bool {
    exists|i: int| 0 <= i < names.len() && names[i] == n
}

/// Inserts `s` into the sorted, duplicate-free name list, keeping it so.
fn insert_sorted_unique(out: &mut Vec<String>, s: String)
    requires
        sorted_distinct(old(out).deep_view()),
    ensures
        sorted_distinct(final(out).deep_view()),
        forall|n: Seq<char>|
            has_name(final(out).deep_view(), n) == (has_name(old(out).deep_view(), n) || n == s@),
{
    let ghost pre = out.deep_view();
    let mut j: usize = 0;
    while j < out.len() && str_lt(out[j].as_str(), s.as_str())
        invariant
            pre == out.deep_view(),
            pre.len() == out@.len(),
            j <= out@.len(),
            forall|k: int| 0 <= k < j ==> chars_lt(#[trigger] pre[k], s@),
        decreases out@.len() - j,
    {
        proof {
            assert(pre[j as int] == out@[j as int]@);
        }
        j = j + 1;
    }
    proof {
        if j < out@.len() {
            assert(pre[j as int] == out@[j as int]@);
        }
    }
    if j < out.len() && str_eq(out[j].as_str(), s.as_str()) {
        proof {
            assert(has_name(pre, s@)) by {
                assert(pre[j as int] == s@);
            }
        }
        return;
    }
    proof {
        if j < out@.len() {
            lemma_chars_lt_total(pre[j as int], s@);
            assert(chars_lt(s@, pre[j as int]));
        }
    }
    out.insert(j, s);
    proof {
        let post = out.deep_view();
        old(out)@.insert_ensures(j as int, s);
        assert(post.len() == pre.len() + 1);
        assert forall|k: int| 0 <= k < post.len() implies post[k] == (if k < j {
            pre[k]
        } else if k == j {
            s@
        } else {
            pre[k - 1]
        }) by {
            assert(post[k] == out@[k]@);
            if k < j {
                assert(out@[k] == old(out)@[k]);
                assert(pre[k] == old(out)@[k]@);
            } else if k == j {
                assert(out@[k] == s);
            } else {
                let ii = k - 1;
                assert(old(out)@.insert(j as int, s)[ii + 1] == old(out)@[ii]);
                assert(out@[k] == old(out)@[k - 1]);
                assert(pre[k - 1] == old(out)@[k - 1]@);
            }
        }
        assert forall|i: int| 0 <= i < post.len() - 1 implies chars_lt(
            #[trigger] post[i],
            post[i + 1],
        ) by {
            if i + 1 < j {
                assert(chars_lt(pre[i], pre[i + 1]));
            } else if i + 1 == j {
                assert(chars_lt(pre[i], s@));
            } else if i == j {
                assert(chars_lt(s@, pre[i]));
            } else {
                assert(chars_lt(pre[i - 1], pre[i]));
            }
        }
        assert forall|n: Seq<char>|
            has_name(post, n) == (has_name(pre, n) || n == s@) by {
            if has_name(post, n) {
                let k = choose|k: int| 0 <= k < post.len() && post[k] == n;
                if k < j {
                    assert(pre[k] == n);
                } else if k > j {
                    assert(pre[k - 1] == n);
                }
            }
            if has_name(pre, n) {
                let k = choose|k: int| 0 <= k < pre.len() && pre[k] == n;
                if k < j {
                    assert(post[k] == n);
                } else {
                    assert(post[k + 1] == n);
                }
            }
            if n == s@ {
                assert(post[j as int] == n);
            }
        }
    }
}

/// Membership in one more element of a prefix.
proof fn lemma_has_name_take_succ(nv: Seq<Seq<char>>, i: int, n: Seq<char>)
    requires
        0 <= i < nv.len(),
    ensures
        has_name(nv.take(i + 1), n) == (has_name(nv.take(i), n) || n == nv[i]),
{
    if has_name(nv.take(i + 1), n) {
        let k = choose|k: int| 0 <= k < nv.take(i + 1).len() && #[trigger] nv.take(i + 1)[k] == n;
        if k < i {
            assert(nv.take(i)[k] == n);
        } else {
            assert(n == nv[i]);
        }
    }
    if has_name(nv.take(i), n) {
        let k = choose|k: int| 0 <= k < nv.take(i).len() && #[trigger] nv.take(i)[k] == n;
        assert(nv.take(i + 1)[k] == n);
    }
    if n == nv[i] {
        assert(nv.take(i + 1)[i] == n);
    }
}

/// Adds to `out` every name of `names` that starts with `prefix`.
fn collect_matches(out: &mut Vec<String>, names: &Vec<String>, prefix: &str)
    requires
        sorted_distinct(old(out).deep_view()),
    ensures
        sorted_distinct(final(out).deep_view()),
        forall|n: Seq<char>|
            has_name(final(out).deep_view(), n) == (has_name(old(out).deep_view(), n) || (has_name(
                names.deep_view(),
                n,
            ) && starts_with(n, prefix@))),
{
    let ghost base = old(out).deep_view();
    let ghost nv = names.deep_view();
    let mut i: usize = 0;
    while i < names.len()
        invariant
            base == old(out).deep_view(),
            nv == names.deep_view(),
            nv.len() == names@.len(),
            i <= names@.len(),
            sorted_distinct(out.deep_view()),
            forall|n: Seq<char>|
                has_name(out.deep_view(), n) == (has_name(base, n) || (has_name(
                    nv.take(i as int),
                    n,
                ) && starts_with(n, prefix@))),
        decreases names@.len() - i,
    {
        let ghost before = out.deep_view();
        proof {
            assert(nv[i as int] == names@[i as int]@);
        }
        if str_starts_with(names[i].as_str(), prefix) {
            insert_sorted_unique(out, names[i].clone());
            proof {
                let now = out.deep_view();
                assert forall|n: Seq<char>|
                    has_name(now, n) == (has_name(base, n) || (has_name(nv.take(i + 1), n)
                        && starts_with(n, prefix@))) by {
                    lemma_has_name_take_succ(nv, i as int, n);
                    assert(has_name(now, n) == (has_name(before, n) || n == nv[i as int]));
                }
            }
        } else {
            proof {
                let now = out.deep_view();
                assert(!starts_with(nv[i as int], prefix@));
                assert forall|n: Seq<char>|
                    has_name(now, n) == (has_name(base, n) || (has_name(nv.take(i + 1), n)
                        && starts_with(n, prefix@))) by {
                    lemma_has_name_take_succ(nv, i as int, n);
                    assert(has_name(now, n) == (has_name(base, n) || (has_name(
                        nv.take(i as int),
                        n,
                    ) && starts_with(n, prefix@))));
                }
            }
        }
        i = i + 1;
    }
    proof {
        assert(nv.take(names@.len() as int) =~~= nv);
        assert forall|n: Seq<char>|
            has_name(out.deep_view(), n) == (has_name(base, n) || (has_name(nv, n)
                && starts_with(n, prefix@))) by {
            assert(has_name(out.deep_view(), n) == (has_name(base, n) || (has_name(
                nv.take(names@.len() as int),
                n,
            ) && starts_with(n, prefix@))));
        }
    }
}

/// The completer the line editor consults.
pub struct ShellCompleter;

impl ShellCompleter {
    /// Completes the command word of `line` at cursor position `pos` (a
    /// character index).  `builtin_names` and `path_names` are the
    /// registered builtins and the executable names found on `PATH`.
    ///
    /// When the cursor stands in the first word, returns the position that
    /// word starts at together with every matching name, sorted and
    /// without duplicates; a single match carries a trailing space in its
    /// replacement.  Anywhere else, returns the cursor position and no
    /// candidates.
    pub fn complete(
        &self,
        line: &str,
        pos: usize,
        builtin_names: &Vec<String>,
        path_names: &Vec<String>,
    ) -> (r: (usize, Vec<CompletionCandidate>))
        requires
            pos <= line@.len(),
        ensures
            match completion_prefix(line@.take(pos as int)) {
                Option::None => r.0 == pos && r.1@.len() == 0,
                Option::Some(prefix) => {
                    &&& r.0 == pos - prefix.len()
                    &&& sorted_distinct(r.1@.map_values(|c: CompletionCandidate| c.display@))
                    &&& forall|n: Seq<char>|
                        has_name(r.1@.map_values(|c: CompletionCandidate| c.display@), n) == ((
                        has_name(builtin_names.deep_view(), n) || has_name(
                            path_names.deep_view(),
                            n,
                        )) && starts_with(n, prefix))
                    &&& r.1@.len() != 1 ==> forall|i: int|
                        0 <= i < r.1@.len() ==> (#[trigger] r.1@[i]).replacement@ == r.1@[
                            i
                        ].display@
                    &&& r.1@.len() == 1 ==> r.1@[0].replacement@ == r.1@[0].display@.push(' ')
                },
            },
    {
        let input = line.substring_char(0, pos);
        let ilen = input.unicode_len();
        let ghost iv = line@.take(pos as int);
        proof {
            assert(input@ =~= iv);
        }
        // A cursor right after a space completes nothing.
        if ilen > 0 && input.get_char(ilen - 1) == ' ' {
            return (pos, Vec::new());
        }
        // Scan the words of the input; only a first-word cursor completes.
        let mut cur = String::new();
        let mut words: Vec<String> = Vec::new();
        proof {
            assert(iv.take(0) =~= Seq::<char>::empty());
            assert(words.deep_view() =~= Seq::<Seq<char>>::empty());
        }
        let mut i: usize = 0;
        while i < ilen
            invariant
                iv == line@.take(pos as int),
                ilen == iv.len(),
                input@ == iv,
                i <= ilen,
                word_fold(
                    WordState { cur: Seq::empty(), words: Seq::empty() },
                    iv.take(i as int),
                ) == (WordState { cur: cur@, words: words.deep_view() }),
                cur@.len() <= i,
                forall|j: int|
                    0 <= j < words.deep_view().len() ==> (#[trigger] words.deep_view()[j]).len()
                        <= i,
            decreases ilen - i,
        {
            let c = input.get_char(i);
            proof {
                assert(iv.take(i + 1).drop_last() =~= iv.take(i as int));
                assert(iv.take(i + 1).last() == iv[i as int]);
            }
            let ghost prew = WordState { cur: cur@, words: words.deep_view() };
            if c == ' ' || c == '\t' {
                if cur.as_str().unicode_len() > 0 {
                    let done = cur;
                    cur = String::new();
                    words.push(done);
                    proof {
                        assert(words.deep_view() =~= prew.words.push(prew.cur));
                    }
                } else {
                    cur = String::new();
                }
            } else {
                push_char(&mut cur, c);
            }
            i = i + 1;
        }
        proof {
            assert(iv.take(ilen as int) =~= iv);
        }
        let cur_nonempty = cur.as_str().unicode_len() > 0;
        let many_words = words.len() >= 2 || (words.len() == 1 && cur_nonempty);
        if many_words {
            proof {
                let w = words_of(iv);
                assert(w.len() == words.deep_view().len() + (if cur@.len() > 0 {
                    1int
                } else {
                    0int
                }));
            }
            return (pos, Vec::new());
        }
        let ghost cur_v = cur@;
        let ghost words_v = words.deep_view();
        let prefix: String = if cur.as_str().unicode_len() > 0 {
            cur
        } else if words.len() == 1 {
            proof {
                assert(words.deep_view()[0] == words@[0]@);
            }
            words[0].clone()
        } else {
            String::new()
        };
        proof {
            let w = words_of(iv);
            if cur_v.len() > 0 {
                assert(w == words_v.push(cur_v));
                assert(words_v.len() == 0);
                assert(w[0] == cur_v);
                assert(prefix@ == cur_v);
            } else {
                assert(w == words_v);
            }
            if w.len() == 0 {
                assert(prefix@.len() == 0);
                assert(completion_prefix(iv) == Option::Some(prefix@)) by {
                    assert(prefix@ =~= Seq::<char>::empty());
                }
            } else {
                assert(w.len() == 1);
                assert(w[0] == prefix@);
                assert(completion_prefix(iv) == Option::Some(prefix@));
            }
        }
        let mut matches: Vec<String> = Vec::new();
        collect_matches(&mut matches, builtin_names, prefix.as_str());
        collect_matches(&mut matches, path_names, prefix.as_str());
        let single = matches.len() == 1;
        let mut out: Vec<CompletionCandidate> = Vec::new();
        let ghost mv = matches.deep_view();
        let mut k: usize = 0;
        while k < matches.len()
            invariant
                mv == matches.deep_view(),
                mv.len() == matches@.len(),
                k <= matches@.len(),
                out@.len() == k,
                single == (matches@.len() == 1),
                forall|j: int| 0 <= j < k ==> (#[trigger] out@[j]).display@ == mv[j],
                forall|j: int|
                    0 <= j < k ==> (#[trigger] out@[j]).replacement@ == (if single {
                        mv[j].push(' ')
                    } else {
                        mv[j]
                    }),
            decreases matches@.len() - k,
        {
            proof {
                assert(mv[k as int] == matches@[k as int]@);
            }
            let display = matches[k].clone();
            let mut replacement = matches[k].clone();
            if single {
                push_char(&mut replacement, ' ');
            }
            out.push(CompletionCandidate { display, replacement });
            k = k + 1;
        }
        proof {
            assert(out@.map_values(|c: CompletionCandidate| c.display@) =~~= mv);
        }
        let plen = prefix.as_str().unicode_len();
        proof {
            assert(iv.len() == pos);
            assert(prefix@.len() <= ilen);
        }
        (pos - plen, out)
    }
}

} // verus!
