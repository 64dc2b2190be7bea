//! The bot's standing configuration: how it is addressed, and what happens
//! when a member joins.
use vstd::prelude::*;
use crate::parse::{Prefix, Segment};
use crate::text::chars_of;

verus! {

/// Minutes after joining at which a member is given the member role.
pub const RUSTIFICATION_DELAY_MINUTES: u64 = 30;

/// The text of a literal prefix, if `p` is one.
pub open spec fn literal_text(p: Prefix) -> Option<Seq<char>> {
    match p {
        Prefix::Literal(l) => Some(l@),
        Prefix::Pattern(_) => None,
    }
}

/// Whether `seg` offers `alts`, in that order, and is optional as given.
pub open spec fn segment_is(seg: Segment, alts: Seq<Seq<char>>, optional: bool) -> bool {
    &&& seg.optional == optional
    &&& seg.alternatives@.len() == alts.len()
    &&& forall|i: int| 0 <= i < alts.len() ==> #[trigger] seg.alternatives@[i]@ == alts[i]
}

/// The casual way of addressing the bot: "yo" or "hey", then "crab",
/// "ferris" or "fewwis", an optional comma, " can you " and an optional
/// "please " or "pwease ".
pub open spec fn casual_pattern(segs: Seq<Segment>) -> bool {
    &&& segs.len() == 6
    &&& segment_is(segs[0], seq!["yo"@, "hey"@], false)
    &&& segment_is(segs[1], seq![" "@], false)
    &&& segment_is(segs[2], seq!["crab"@, "ferris"@, "fewwis"@], false)
    &&& segment_is(segs[3], seq![","@], true)
    &&& segment_is(segs[4], seq![" can you "@], false)
    &&& segment_is(segs[5], seq!["please "@, "pwease "@], true)
}

fn segment(alts: Vec<Vec<char>>, optional: bool) -> (r: Segment)
    ensures
        r.alternatives == alts,
        r.optional == optional,
{
    Segment { alternatives: alts, optional }
}

fn casual_segments() -> (r: Vec<Segment>)
    ensures
        casual_pattern(r@),
{
    let mut r: Vec<Segment> = Vec::new();
    r.push(segment(vec![chars_of("yo"), chars_of("hey")], false));
    r.push(segment(vec![chars_of(" ")], false));
    r.push(segment(vec![chars_of("crab"), chars_of("ferris"), chars_of("fewwis")], false));
    r.push(segment(vec![chars_of(",")], true));
    r.push(segment(vec![chars_of(" can you ")], false));
    r.push(segment(vec![chars_of("please "), chars_of("pwease ")], true));
    proof {
        let s = r@;
        assert(segment_is(s[0], seq!["yo"@, "hey"@], false));
        assert(segment_is(s[1], seq![" "@], false));
        assert(segment_is(s[2], seq!["crab"@, "ferris"@, "fewwis"@], false));
        assert(segment_is(s[3], seq![","@], true));
        assert(segment_is(s[4], seq![" can you "@], false));
        assert(segment_is(s[5], seq!["please "@, "pwease "@], true));
    }
    r
}

/// The prefixes the bot answers to: "?", the crab emoji and the two ferris
/// emotes, each with and then without a trailing space, and the casual
/// pattern last.
pub fn standard_prefixes() -> (r: Vec<Prefix>)
    ensures
        r@.len() == 8,
        literal_text(r@[0]) == Some("?"@),
        literal_text(r@[1]) == Some("\u{1f980} "@),
        literal_text(r@[2]) == Some("\u{1f980}"@),
        literal_text(r@[3]) == Some("<:ferris:358652670585733120> "@),
        literal_text(r@[4]) == Some("<:ferris:358652670585733120>"@),
        literal_text(r@[5]) == Some("<:ferrisballSweat:678714352450142239> "@),
        literal_text(r@[6]) == Some("<:ferrisballSweat:678714352450142239>"@),
        r@[7] matches Prefix::Pattern(segs) && casual_pattern(segs@),
{
    let mut r: Vec<Prefix> = Vec::new();
    r.push(Prefix::Literal(chars_of("?")));
    r.push(Prefix::Literal(chars_of("\u{1f980} ")));
    r.push(Prefix::Literal(chars_of("\u{1f980}")));
    r.push(Prefix::Literal(chars_of("<:ferris:358652670585733120> ")));
    r.push(Prefix::Literal(chars_of("<:ferris:358652670585733120>")));
    r.push(Prefix::Literal(chars_of("<:ferrisballSweat:678714352450142239> ")));
    r.push(Prefix::Literal(chars_of("<:ferrisballSweat:678714352450142239>")));
    r.push(Prefix::Pattern(casual_segments()));
    r
}

/// The member role to give a member who just joined, after a delay.
pub struct RoleGrant {
    pub delay_secs: u64,
    pub role: u64,
    pub reason: Vec<char>,
}

/// What to do when a member joins: give them `member_role` after
/// `RUSTIFICATION_DELAY_MINUTES`, with a reason that names the delay.
pub fn on_member_join(member_role: u64) -> (r: RoleGrant)
    ensures
        r.delay_secs == RUSTIFICATION_DELAY_MINUTES * 60,
        r.role == member_role,
        r.reason@ == "Automatically rustified after 30 minutes"@,
{
    RoleGrant {
        delay_secs: RUSTIFICATION_DELAY_MINUTES * 60,
        role: member_role,
        reason: chars_of("Automatically rustified after 30 minutes"),
    }
}

} // verus!
