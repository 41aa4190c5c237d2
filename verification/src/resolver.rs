//! The command resolver: classifies a command word and builds the list of
//! paths where an external command may live.
//!
//! A word with a path separator is a direct path and gets no search; any
//! other word is looked up directory by directory along `PATH`, left to
//! right, and the first existing executable wins.  Only the file-system
//! probes themselves happen outside: the driver checks each candidate and
//! hands the verdicts back to [`pick_first_hit`].

use vstd::prelude::*;
use vstd::string::*;
use crate::text::{contains_char, push_char, spec_contains_char};

verus! {

/// State of the colon-splitting scan over a `PATH` value.
pub struct PathSplitState {
    pub cur: Seq<char>,
    pub parts: Seq<Seq<char>>,
}

/// One step: a colon ends the current entry, anything else extends it.
pub open spec fn path_split_step(st: PathSplitState, c: char) -> PathSplitState {
    if c == ':' {
        PathSplitState { cur: Seq::empty(), parts: st.parts.push(st.cur) }
    } else {
        PathSplitState { cur: st.cur.push(c), parts: st.parts }
    }
}

/// The scan over all of `s`.
pub open spec fn path_split_fold(st: PathSplitState, s: Seq<char>) -> PathSplitState
    decreases s.len(),
{
    if s.len() == 0 {
        st
    } else {
        path_split_step(path_split_fold(st, s.drop_last()), s.last())
    }
}

/// The entries of a `PATH` value: the text between colons, empty entries
/// included.
pub open spec fn spec_path_entries(s: Seq<char>) -> Seq<Seq<char>> {
    let st = path_split_fold(PathSplitState { cur: Seq::empty(), parts: Seq::empty() }, s);
    st.parts.push(st.cur)
}

/// Splits a `PATH` value on colons.
pub fn split_path_entries(path: &str) -> (r: Vec<String>)
    ensures
        r.deep_view() == spec_path_entries(path@),
{
    let len = path.unicode_len();
    let mut cur = String::new();
    let mut parts: Vec<String> = Vec::new();
    proof {
        assert(path@.take(0) =~= Seq::<char>::empty());
        assert(parts.deep_view() =~= Seq::<Seq<char>>::empty());
    }
    let mut i: usize = 0;
    while i < len
        invariant
            len == path@.len(),
            i <= len,
            path_split_fold(
                PathSplitState { cur: Seq::empty(), parts: Seq::empty() },
                path@.take(i as int),
            ) == (PathSplitState { cur: cur@, parts: parts.deep_view() }),
        decreases len - i,
    {
        let c = path.get_char(i);
        proof {
            assert(path@.take(i + 1).drop_last() =~= path@.take(i as int));
            assert(path@.take(i + 1).last() == path@[i as int]);
        }
        let ghost pre = PathSplitState { cur: cur@, parts: parts.deep_view() };
        if c == ':' {
            let done = cur;
            cur = String::new();
            parts.push(done);
            proof {
                assert(parts.deep_view() =~= pre.parts.push(pre.cur));
            }
        } else {
            push_char(&mut cur, c);
        }
        i = i + 1;
    }
    proof {
        assert(path@.take(len as int) =~= path@);
    }
    let ghost pre = parts.deep_view();
    parts.push(cur);
    proof {
        assert(parts.deep_view() =~= spec_path_entries(path@));
    }
    parts
}

/// One candidate path: the directory, a separator, the command name.
pub open spec fn spec_candidate(dir: Seq<char>, name: Seq<char>) -> Seq<char> {
    dir + "/"@ + name
}

/// The paths at which an external command may live, in the order they are
/// probed: the word itself when it carries a path separator, otherwise each
/// `PATH` entry joined with the word.  A missing or empty `PATH` yields no
/// candidates.
pub open spec fn spec_candidates(name: Seq<char>, path_var: Option<Seq<char>>) -> Seq<Seq<char>> {
    if spec_contains_char(name, '/') {
        seq![name]
    } else {
        match path_var {
            Option::Some(p) => if p.len() == 0 {
                Seq::empty()
            } else {
                spec_path_entries(p).map_values(|d: Seq<char>| spec_candidate(d, name))
            },
            Option::None => Seq::empty(),
        }
    }
}

/// Builds the candidate paths for `name` under the given `PATH` value.
pub fn resolve_candidates(name: &str, path_var: &Option<String>) -> (r: Vec<String>)
    ensures
        r.deep_view() == spec_candidates(name@, match path_var {
            Option::Some(p) => Option::Some(p@),
            Option::None => Option::<Seq<char>>::None,
        }),
{
    if contains_char(name, '/') {
        let mut out: Vec<String> = Vec::new();
        out.push(name.to_owned());
        proof {
            assert(out.deep_view() =~= seq![name@]);
        }
        return out;
    }
    match path_var {
        Some(p) => {
            if p.as_str().unicode_len() == 0 {
                let out: Vec<String> = Vec::new();
                proof {
                    assert(out.deep_view() =~= Seq::<Seq<char>>::empty());
                }
                out
            } else {
                let entries = split_path_entries(p.as_str());
                let ghost target = spec_path_entries(p@).map_values(
                    |d: Seq<char>| spec_candidate(d, name@),
                );
                let mut out: Vec<String> = Vec::new();
                let mut i: usize = 0;
                proof {
                    assert(out.deep_view() =~~= target.take(0));
                }
                while i < entries.len()
                    invariant
                        target == spec_path_entries(p@).map_values(
                            |d: Seq<char>| spec_candidate(d, name@),
                        ),
                        entries.deep_view() == spec_path_entries(p@),
                        entries.deep_view().len() == entries@.len(),
                        i <= entries@.len(),
                        out.deep_view() == target.take(i as int),
                    decreases entries@.len() - i,
                {
                    let mut c = entries[i].clone();
                    c.append("/");
                    c.append(name);
                    let ghost pre = out.deep_view();
                    out.push(c);
                    proof {
                        assert(entries.deep_view()[i as int] == entries@[i as int]@);
                        assert(target[i as int] == spec_candidate(
                            entries.deep_view()[i as int],
                            name@,
                        ));
                        assert(out.deep_view() =~~= pre.push(target[i as int]));
                        assert(target.take(i + 1) =~~= pre.push(target[i as int]));
                    }
                    i = i + 1;
                }
                proof {
                    assert(target.take(entries@.len() as int) =~~= target);
                }
                out
            }
        },
        None => {
            let out: Vec<String> = Vec::new();
            proof {
                assert(out.deep_view() =~= Seq::<Seq<char>>::empty());
            }
            out
        },
    }
}

/// Picks the first candidate whose probe succeeded: the leftmost index with
/// a true flag, or none when every probe failed.
pub fn pick_first_hit(flags: &Vec<bool>) -> (r: Option<usize>)
    ensures
        r matches Some(i) ==> 0 <= i < flags@.len() && flags@[i as int] && forall|j: int|
            0 <= j < i ==> !flags@[j],
        r is None ==> forall|j: int| 0 <= j < flags@.len() ==> !flags@[j],
{
    let mut i: usize = 0;
    while i < flags.len()
        invariant
            i <= flags@.len(),
            forall|j: int| 0 <= j < i ==> !flags@[j],
        decreases flags@.len() - i,
    {
        if flags[i] {
            return Some(i);
        }
        i = i + 1;
    }
    None
}

/// The diagnostic for a command that resolved to nothing.
pub fn command_not_found_message(name: &str) -> (r: String)
    ensures
        r@ == name@ + ": command not found"@,
{
    let mut t = name.to_owned();
    t.append(": command not found");
    t
}

} // verus!
