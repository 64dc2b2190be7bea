//! Fitting handler output into the size limits of a chat message.
use vstd::prelude::*;
use crate::text::{append, slice};

verus! {

/// The longest message the platform accepts, in characters.
pub const MAX_MESSAGE_LEN: usize = 2000;

/// The most lines a reply may hold.
pub const MAX_LINES: usize = 45;

/// The number of newline characters in `s`.
pub open spec fn nl_count(s: Seq<char>) -> nat
    decreases s.len(),
{
    if s.len() == 0 {
        0
    } else {
        nl_count(s.drop_last()) + if s.last() == '\n' {
            1nat
        } else {
            0nat
        }
    }
}

/// The number of lines of `s`: a newline ends a line, and a last line
/// without a newline counts too.
pub open spec fn line_count(s: Seq<char>) -> nat {
    nl_count(s) + if s.len() > 0 && s.last() != '\n' {
        1nat
    } else {
        0nat
    }
}

/// Whether `p` is the position of the newline that ends line `k` of `s`
/// (counting from zero).
pub open spec fn is_line_end(s: Seq<char>, p: int, k: nat) -> bool {
    0 <= p < s.len() && s[p] == '\n' && nl_count(s.subrange(0, p)) == k
}

/// The position of the newline that ends line `k` of `s`.
pub open spec fn line_end(s: Seq<char>, k: nat) -> int {
    choose|p: int| is_line_end(s, p, k)
}

/// What fits of `body` when it is cut for length: room is kept for the
/// closing text and the marker.
pub open spec fn room(closing: Seq<char>, marker: Seq<char>) -> int {
    if closing.len() + marker.len() <= MAX_MESSAGE_LEN {
        MAX_MESSAGE_LEN - closing.len() - marker.len()
    } else {
        0
    }
}

/// Whether `body` followed by `closing` is longer than a message may be.
pub open spec fn too_long(body: Seq<char>, closing: Seq<char>) -> bool {
    body.len() + closing.len() > MAX_MESSAGE_LEN
}

/// Whether `body` has more lines than a reply may hold.
pub open spec fn too_many_lines(body: Seq<char>) -> bool {
    line_count(body) > MAX_LINES
}

/// The reply for `body`: cut for length first, else for lines, with the
/// marker added exactly when something was cut.
pub open spec fn formatted(body: Seq<char>, closing: Seq<char>, marker: Seq<char>) -> Seq<char> {
    if too_long(body, closing) {
        body.subrange(0, room(closing, marker)) + closing + marker
    } else if too_many_lines(body) {
        body.subrange(0, line_end(body, (MAX_LINES - 1) as nat)) + closing + marker
    } else {
        body + closing
    }
}

proof fn lemma_nl_step(s: Seq<char>, i: int)
    requires
        0 <= i < s.len(),
    ensures
        nl_count(s.subrange(0, i + 1)) == nl_count(s.subrange(0, i)) + if s[i] == '\n' {
            1nat
        } else {
            0nat
        },
{
    assert(s.subrange(0, i + 1).drop_last() =~= s.subrange(0, i));
}

proof fn lemma_nl_mono(s: Seq<char>, i: int, j: int)
    requires
        0 <= i <= j <= s.len(),
    ensures
        nl_count(s.subrange(0, i)) <= nl_count(s.subrange(0, j)),
    decreases j - i,
{
    if i < j {
        lemma_nl_step(s, j - 1);
        lemma_nl_mono(s, i, j - 1);
    }
}

/// A line ends at one place only.
pub proof fn lemma_line_end_unique(s: Seq<char>, p: int, q: int, k: nat)
    requires
        is_line_end(s, p, k),
        is_line_end(s, q, k),
    ensures
        p == q,
{
    if p < q {
        lemma_nl_step(s, p);
        lemma_nl_mono(s, p + 1, q);
    } else if q < p {
        lemma_nl_step(s, q);
        lemma_nl_mono(s, q + 1, p);
    }
}

/// Fits `body` into one message: `body` then `closing`, cut to at most
/// `MAX_MESSAGE_LEN` characters or `MAX_LINES` lines, in that order, with
/// `marker` after the closing text exactly when it was cut.
pub fn format_reply(body: &Vec<char>, closing: &Vec<char>, marker: &Vec<char>) -> (r: Vec<char>)
    ensures
        r@ == formatted(body@, closing@, marker@),
{
    let n = body.len();
    if n > MAX_MESSAGE_LEN || closing.len() > MAX_MESSAGE_LEN - n {
        let avail: usize = if closing.len() <= MAX_MESSAGE_LEN && marker.len() <= MAX_MESSAGE_LEN
            - closing.len() {
            MAX_MESSAGE_LEN - closing.len() - marker.len()
        } else {
            0
        };
        let mut r = slice(body, 0, avail);
        append(&mut r, closing);
        append(&mut r, marker);
        return r;
    }
    let mut count: usize = 0;
    let mut cut: usize = n;
    let mut i: usize = 0;
    while i < n
        invariant
            i <= n == body@.len() <= MAX_MESSAGE_LEN,
            count <= i,
            cut <= n,
            count as nat == nl_count(body@.subrange(0, i as int)),
            cut == n <==> count < MAX_LINES,
            cut < n ==> is_line_end(body@, cut as int, (MAX_LINES - 1) as nat),
        decreases n - i,
    {
        proof {
            lemma_nl_step(body@, i as int);
        }
        if body[i] == '\n' {
            if count == MAX_LINES - 1 {
                cut = i;
            }
            count = count + 1;
        }
        i = i + 1;
    }
    assert(body@.subrange(0, n as int) =~= body@);
    let last_open = n > 0 && body[n - 1] != '\n';
    if count > MAX_LINES || (count == MAX_LINES && last_open) {
        proof {
            assert(is_line_end(body@, cut as int, (MAX_LINES - 1) as nat));
            lemma_line_end_unique(
                body@,
                cut as int,
                line_end(body@, (MAX_LINES - 1) as nat),
                (MAX_LINES - 1) as nat,
            );
        }
        let mut r = slice(body, 0, cut);
        append(&mut r, closing);
        append(&mut r, marker);
        r
    } else {
        let mut r = body.clone();
        append(&mut r, closing);
        r
    }
}

} // verus!

verus! {

/// A body cut for length fills the message exactly and ends with the
/// marker, whenever the closing text and the marker fit in a message.
pub proof fn lemma_length_cut_fills_message(body: Seq<char>, closing: Seq<char>, marker: Seq<char>)
    requires
        too_long(body, closing),
        closing.len() + marker.len() <= MAX_MESSAGE_LEN,
    ensures
        formatted(body, closing, marker).len() == MAX_MESSAGE_LEN,
        formatted(body, closing, marker).subrange(
            MAX_MESSAGE_LEN - marker.len(),
            MAX_MESSAGE_LEN as int,
        ) == marker,
{
    let r = formatted(body, closing, marker);
    assert(r.subrange(MAX_MESSAGE_LEN - marker.len(), MAX_MESSAGE_LEN as int) =~= marker);
}

/// A body cut for lines keeps its first `MAX_LINES` lines: the text before
/// the closing part holds `MAX_LINES - 1` newlines and is a prefix of the body.
pub proof fn lemma_line_cut_keeps_lines(body: Seq<char>, closing: Seq<char>, marker: Seq<char>)
    requires
        !too_long(body, closing),
        too_many_lines(body),
    ensures
        ({
            let p = line_end(body, (MAX_LINES - 1) as nat);
            &&& 0 <= p < body.len()
            &&& nl_count(body.subrange(0, p)) == MAX_LINES - 1
            &&& formatted(body, closing, marker) == body.subrange(0, p) + closing + marker
        }),
{
    assert(body.subrange(0, body.len() as int) =~= body);
    lemma_line_end_exists(body, (MAX_LINES - 1) as nat, body.len() as int);
}

/// Where a prefix of `s` holds more than `k` newlines, line `k` ends in it.
proof fn lemma_line_end_exists(s: Seq<char>, k: nat, i: int)
    requires
        0 <= i <= s.len(),
        nl_count(s.subrange(0, i)) > k,
    ensures
        exists|p: int| is_line_end(s, p, k),
    decreases i,
{
    if i == 0 {
        assert(s.subrange(0, 0).len() == 0);
    } else {
        lemma_nl_step(s, i - 1);
        if nl_count(s.subrange(0, i - 1)) > k {
            lemma_line_end_exists(s, k, i - 1);
        } else {
            assert(is_line_end(s, i - 1, k));
        }
    }
}

} // verus!
