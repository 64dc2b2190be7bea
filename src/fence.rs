//! Extraction of the code held in a command body.
use vstd::prelude::*;
use crate::error::BotError;
use crate::text::{is_whitespace, lemma_ws_index, slice, trim, trimmed, ws_index};

verus! {

/// Whether `t` opens and closes with a triple backtick fence.
pub open spec fn triple_fenced(t: Seq<char>) -> bool {
    t.len() >= 3 && t[0] == '`' && t[1] == '`' && t[2] == '`' && t[t.len() - 3] == '`'
        && t[t.len() - 2] == '`' && t[t.len() - 1] == '`'
}

/// Whether `t` opens and closes with a single backtick.
pub open spec fn single_fenced(t: Seq<char>) -> bool {
    t.len() >= 2 && t[0] == '`' && t[t.len() - 1] == '`'
}

/// The code held in `body`, or `None` where it holds no code block.
pub open spec fn code_of(body: Seq<char>) -> Option<Seq<char>> {
    let t = trim(body);
    if triple_fenced(t) {
        let p = ws_index(t, 3);
        if p < t.len() {
            Some(trim(t.subrange(p, t.len() - 3)))
        } else {
            None
        }
    } else if single_fenced(t) {
        Some(trim(t.subrange(1, t.len() - 1)))
    } else {
        None
    }
}

/// Extracts the code from a command body: the inside of a triple-fenced
/// block after its language tag, or of a single-backtick span, trimmed.
/// A triple-fenced block with no whitespace after the opening fence holds
/// no code.
pub fn extract_code(body: &Vec<char>) -> (r: Result<Vec<char>, BotError>)
    ensures
        code_of(body@) is Some ==> r is Ok && r->Ok_0@ == code_of(body@)->0,
        code_of(body@) is None ==> r == Err::<Vec<char>, BotError>(BotError::MissingCodeblock),
{
    let t = trimmed(body);
    let n = t.len();
    if n >= 3 && t[0] == '`' && t[1] == '`' && t[2] == '`' && t[n - 3] == '`' && t[n - 2] == '`'
        && t[n - 1] == '`' {
        let mut p: usize = 3;
        while p < n && !is_whitespace(t[p])
            invariant
                3 <= p <= n == t@.len(),
                ws_index(t@, 3) == ws_index(t@, p as int),
            decreases n - p,
        {
            p = p + 1;
        }
        proof {
            lemma_ws_index(t@, p as int);
        }
        if p < n {
            assert(p < n - 3);
            let inner = slice(&t, p, n - 3);
            Ok(trimmed(&inner))
        } else {
            Err(BotError::MissingCodeblock)
        }
    } else if n >= 2 && t[0] == '`' && t[n - 1] == '`' {
        let inner = slice(&t, 1, n - 1);
        Ok(trimmed(&inner))
    } else {
        Err(BotError::MissingCodeblock)
    }
}

} // verus!
