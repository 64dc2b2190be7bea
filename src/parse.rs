//! Recognising a command in the text of a message.
use vstd::prelude::*;
use crate::text::{
    is_whitespace, lemma_ws_index, slice, starts_with, starts_with_at, trim, trimmed, ws_index,
};

verus! {

/// One step of a prefix pattern: the first of `alternatives` that the text
/// continues with is taken; where none is and the step is optional, it
/// takes nothing.
pub struct Segment {
    pub alternatives: Vec<Vec<char>>,
    pub optional: bool,
}

/// A way to address the bot at the start of a message.
pub enum Prefix {
    /// This exact text.
    Literal(Vec<char>),
    /// A sequence of steps, each matched in turn without backtracking.
    Pattern(Vec<Segment>),
}

/// A message that addresses the bot: how long its prefix is, the command
/// name it asks for and the rest of its text.
pub struct Invocation {
    pub prefix_len: usize,
    pub name: Vec<char>,
    pub body: Vec<char>,
}

/// The length of the first of `alts`, from index `i` on, that `s` begins with.
pub open spec fn alt_match(alts: Seq<Vec<char>>, s: Seq<char>, i: int) -> Option<nat>
    decreases alts.len() - i,
{
    if i < 0 || i >= alts.len() {
        None
    } else if starts_with(s, alts[i]@) {
        Some(alts[i]@.len())
    } else {
        alt_match(alts, s, i + 1)
    }
}

/// How much of `s` the steps of `segs` from index `k` on take, if they match.
pub open spec fn segs_match(segs: Seq<Segment>, s: Seq<char>, k: int) -> Option<nat>
    decreases segs.len() - k,
{
    if k < 0 || k >= segs.len() {
        Some(0)
    } else {
        match alt_match(segs[k].alternatives@, s, 0) {
            Some(n) => match segs_match(segs, s.subrange(n as int, s.len() as int), k + 1) {
                Some(m) => Some(n + m),
                None => None,
            },
            None => if segs[k].optional {
                segs_match(segs, s, k + 1)
            } else {
                None
            },
        }
    }
}

/// The length of the first literal prefix of `ps`, from index `i` on, that
/// `s` begins with.
pub open spec fn literal_match(ps: Seq<Prefix>, s: Seq<char>, i: int) -> Option<nat>
    decreases ps.len() - i,
{
    if i < 0 || i >= ps.len() {
        None
    } else {
        match ps[i] {
            Prefix::Literal(l) => if starts_with(s, l@) {
                Some(l@.len())
            } else {
                literal_match(ps, s, i + 1)
            },
            Prefix::Pattern(_) => literal_match(ps, s, i + 1),
        }
    }
}

/// The length that the first pattern prefix of `ps`, from index `i` on, that
/// matches `s` takes.
pub open spec fn pattern_match(ps: Seq<Prefix>, s: Seq<char>, i: int) -> Option<nat>
    decreases ps.len() - i,
{
    if i < 0 || i >= ps.len() {
        None
    } else {
        match ps[i] {
            Prefix::Pattern(segs) => match segs_match(segs@, s, 0) {
                Some(n) => Some(n),
                None => pattern_match(ps, s, i + 1),
            },
            Prefix::Literal(_) => pattern_match(ps, s, i + 1),
        }
    }
}

/// The length of the prefix of `s`: literal prefixes are tried first, in
/// order, then patterns.
pub open spec fn prefix_len(ps: Seq<Prefix>, s: Seq<char>) -> Option<nat> {
    match literal_match(ps, s, 0) {
        Some(n) => Some(n),
        None => pattern_match(ps, s, 0),
    }
}

/// The command name in `rest`: its first run of non-whitespace once trimmed.
pub open spec fn name_of(rest: Seq<char>) -> Seq<char> {
    let t = trim(rest);
    t.subrange(0, ws_index(t, 0))
}

/// The body in `rest`: what follows the command name, trimmed.
pub open spec fn body_of(rest: Seq<char>) -> Seq<char> {
    let t = trim(rest);
    trim(t.subrange(ws_index(t, 0), t.len() as int))
}

proof fn lemma_subrange_subrange(s: Seq<char>, a: int, b: int)
    requires
        0 <= a <= s.len(),
        0 <= b <= s.len() - a,
    ensures
        s.subrange(a, s.len() as int).subrange(b, s.len() - a) == s.subrange(a + b, s.len() as int),
{
    assert(s.subrange(a, s.len() as int).subrange(b, s.len() - a) =~= s.subrange(
        a + b,
        s.len() as int,
    ));
}

/// The length of the first of `alts` that the text of `s` from `at` on
/// begins with.
pub fn match_alternatives(alts: &Vec<Vec<char>>, s: &Vec<char>, at: usize) -> (r: Option<usize>)
    requires
        at <= s@.len(),
    ensures
        match alt_match(alts@, s@.subrange(at as int, s@.len() as int), 0) {
            Some(n) => r == Some(n as usize) && n <= s@.len() - at,
            None => r is None,
        },
{
    let ghost t = s@.subrange(at as int, s@.len() as int);
    let mut i: usize = 0;
    while i < alts.len()
        invariant
            i <= alts@.len(),
            at <= s@.len(),
            t == s@.subrange(at as int, s@.len() as int),
            alt_match(alts@, t, 0) == alt_match(alts@, t, i as int),
        decreases alts@.len() - i,
    {
        if starts_with_at(s, at, &alts[i]) {
            return Some(alts[i].len());
        }
        i = i + 1;
    }
    None
}

/// How much of the text of `s` from `at` on the pattern `segs` takes.
pub fn match_pattern(segs: &Vec<Segment>, s: &Vec<char>, at: usize) -> (r: Option<usize>)
    requires
        at <= s@.len(),
    ensures
        match segs_match(segs@, s@.subrange(at as int, s@.len() as int), 0) {
            Some(n) => r == Some(n as usize) && n <= s@.len() - at,
            None => r is None,
        },
{
    let n = s.len();
    let mut pos: usize = at;
    let mut k: usize = 0;
    while k < segs.len()
        invariant
            at <= pos <= n == s@.len(),
            k <= segs@.len(),
            segs_match(segs@, s@.subrange(at as int, n as int), 0) == match segs_match(
                segs@,
                s@.subrange(pos as int, n as int),
                k as int,
            ) {
                Some(m) => Some((pos - at + m) as nat),
                None => None::<nat>,
            },
        decreases segs@.len() - k,
    {
        let seg = &segs[k];
        match match_alternatives(&seg.alternatives, s, pos) {
            Some(len) => {
                proof {
                    lemma_subrange_subrange(s@, pos as int, len as int);
                }
                pos = pos + len;
            },
            None => {
                if !seg.optional {
                    return None;
                }
            },
        }
        k = k + 1;
    }
    Some(pos - at)
}

/// The length of the prefix that `text` begins with, if any: literal
/// prefixes are tried first, in order, then patterns.
pub fn match_prefix(prefixes: &Vec<Prefix>, text: &Vec<char>) -> (r: Option<usize>)
    ensures
        match prefix_len(prefixes@, text@) {
            Some(n) => r == Some(n as usize) && n <= text@.len(),
            None => r is None,
        },
{
    assert(text@.subrange(0, text@.len() as int) =~= text@);
    let mut i: usize = 0;
    while i < prefixes.len()
        invariant
            i <= prefixes@.len(),
            text@.subrange(0, text@.len() as int) == text@,
            literal_match(prefixes@, text@, 0) == literal_match(prefixes@, text@, i as int),
        decreases prefixes@.len() - i,
    {
        match &prefixes[i] {
            Prefix::Literal(l) => {
                if starts_with_at(text, 0, l) {
                    return Some(l.len());
                }
            },
            Prefix::Pattern(_) => {},
        }
        i = i + 1;
    }
    let mut j: usize = 0;
    while j < prefixes.len()
        invariant
            j <= prefixes@.len(),
            text@.subrange(0, text@.len() as int) == text@,
            literal_match(prefixes@, text@, 0) is None,
            pattern_match(prefixes@, text@, 0) == pattern_match(prefixes@, text@, j as int),
        decreases prefixes@.len() - j,
    {
        match &prefixes[j] {
            Prefix::Pattern(segs) => {
                match match_pattern(segs, text, 0) {
                    Some(n) => {
                        return Some(n);
                    },
                    None => {},
                }
            },
            Prefix::Literal(_) => {},
        }
        j = j + 1;
    }
    None
}

/// Splits what follows a prefix into the command name and the body.
pub fn split_command(rest: &Vec<char>) -> (r: (Vec<char>, Vec<char>))
    ensures
        r.0@ == name_of(rest@),
        r.1@ == body_of(rest@),
{
    let t = trimmed(rest);
    let mut k: usize = 0;
    while k < t.len() && !is_whitespace(t[k])
        invariant
            k <= t@.len(),
            ws_index(t@, 0) == ws_index(t@, k as int),
        decreases t@.len() - k,
    {
        k = k + 1;
    }
    proof {
        lemma_ws_index(t@, k as int);
    }
    let name = slice(&t, 0, k);
    let tail = slice(&t, k, t.len());
    (name, trimmed(&tail))
}

/// Parses a message: `None` where no prefix matches, else the prefix
/// length, the command name and the body.
pub fn parse_invocation(prefixes: &Vec<Prefix>, text: &Vec<char>) -> (r: Option<Invocation>)
    ensures
        prefix_len(prefixes@, text@) is None <==> r is None,
        r is Some ==> ({
            let inv = r->Some_0;
            let n = prefix_len(prefixes@, text@)->Some_0;
            let rest = text@.subrange(n as int, text@.len() as int);
            &&& inv.prefix_len == n
            &&& inv.name@ == name_of(rest)
            &&& inv.body@ == body_of(rest)
        }),
{
    match match_prefix(prefixes, text) {
        None => None,
        Some(n) => {
            let rest = slice(text, n, text.len());
            let (name, body) = split_command(&rest);
            Some(Invocation { prefix_len: n, name, body })
        },
    }
}

} // verus!
