//! What Mission Control shows: the feeds of activity, messages and tasks, the
//! agents they are gathered from, their age texts and the "See All" labels.

use vstd::prelude::*;
use vstd::multiset::Multiset;
use crate::agent::types::AgentId;
use crate::text::{append, decimal, decimal_text, signed_decimal_i64, signed_text};

verus! {

broadcast use vstd::seq_lib::group_to_multiset_ensures, vstd::multiset::group_multiset_axioms;

/// One row of a feed: whose it is, when it happened (milliseconds since the
/// Unix epoch) and what it says.
pub struct FeedRow {
    pub agent_name: String,
    pub timestamp: i64,
    pub text: String,
}

/// The agents whose rows a feed gathers: the selected one, or all of them.
pub open spec fn feed_agents(ids: Seq<AgentId>, selected: Option<AgentId>) -> Seq<AgentId> {
    match selected {
        Some(sel) => ids.filter(|x: AgentId| x == sel),
        None => ids,
    }
}

/// The agents, in registry order, whose rows a feed gathers.
pub fn shown_agents(ids: &Vec<AgentId>, selected: Option<AgentId>) -> (r: Vec<AgentId>)
    ensures
        r@ == feed_agents(ids@, selected),
{
    let mut r: Vec<AgentId> = Vec::new();
    let mut i: usize = 0;
    while i < ids.len()
        invariant
            i <= ids@.len(),
            r@ == feed_agents(ids@.take(i as int), selected),
        decreases ids@.len() - i,
    {
        let x = ids[i];
        proof {
            reveal(Seq::filter);
            assert(ids@.take(i + 1).drop_last() =~= ids@.take(i as int));
            assert(ids@.take(i + 1).last() == x);
        }
        match selected {
            Some(sel) => {
                if x == sel {
                    r.push(x);
                }
            },
            None => {
                r.push(x);
            },
        }
        i = i + 1;
    }
    assert(ids@.take(ids@.len() as int) =~= ids@);
    r
}

/// How many rows a feed of `n` rows shows: all when "show all" is on,
/// otherwise at most 20 with an agent selected and at most 10 without.
pub open spec fn feed_len(n: nat, selected: bool, show_all: bool) -> nat {
    if show_all {
        n
    } else {
        let cap: nat = if selected { 20 } else { 10 };
        if n < cap { n } else { cap }
    }
}

/// The rows are newest first.
pub open spec fn newest_first(s: Seq<FeedRow>) -> bool {
    forall|i: int, j: int| 0 <= i < j < s.len() ==> (#[trigger] s[i]).timestamp >= (#[trigger] s[j]).timestamp
}

/// The position at which a row stamped `t` goes into `out`, newest first:
/// after every row that is newer.
fn insert_point(out: &Vec<FeedRow>, t: i64) -> (j: usize)
    requires
        newest_first(out@),
    ensures
        j <= out@.len(),
        forall|i: int| 0 <= i < j ==> (#[trigger] out@[i]).timestamp > t,
        forall|i: int| j <= i < out@.len() ==> (#[trigger] out@[i]).timestamp <= t,
{
    let mut j: usize = 0;
    while j < out.len() && out[j].timestamp > t
        invariant
            j <= out@.len(),
            newest_first(out@),
            forall|i: int| 0 <= i < j ==> (#[trigger] out@[i]).timestamp > t,
        decreases out@.len() - j,
    {
        j = j + 1;
    }
    if j < out.len() {
        assert forall|i: int| j <= i < out@.len() implies (#[trigger] out@[i]).timestamp <= t by {
            assert(out@[j as int].timestamp >= out@[i].timestamp || i == j);
        }
    }
    j
}

/// The rows of `rows`, newest first.
fn newest_first_order(rows: Vec<FeedRow>) -> (out: Vec<FeedRow>)
    ensures
        out@.to_multiset() == rows@.to_multiset(),
        newest_first(out@),
{
    let ghost orig = rows@;
    let mut rest = rows;
    let mut out: Vec<FeedRow> = Vec::new();
    while rest.len() > 0
        invariant
            rest@.to_multiset().add(out@.to_multiset()) == orig.to_multiset(),
            newest_first(out@),
        decreases rest@.len(),
    {
        let ghost before = rest@;
        let x = rest.pop().unwrap();
        proof {
            assert(before =~= rest@.push(x));
        }
        let j = insert_point(&out, x.timestamp);
        let ghost out_before = out@;
        out.insert(j, x);
        proof {
            assert(out@ == out_before.insert(j as int, x));
            assert forall|a: int, b: int| 0 <= a < b < out@.len() implies (#[trigger] out@[a]).timestamp >= (#[trigger] out@[b]).timestamp by {
                if a < j {
                    if b < j {
                        assert(out@[a] == out_before[a] && out@[b] == out_before[b]);
                    } else if b == j {
                        assert(out@[a] == out_before[a]);
                    } else {
                        assert(out@[a] == out_before[a] && out@[b] == out_before[b - 1]);
                    }
                } else if a == j {
                    assert(out@[b] == out_before[b - 1]);
                } else {
                    assert(out@[a] == out_before[a - 1] && out@[b] == out_before[b - 1]);
                }
            }
            assert(rest@.to_multiset().add(out@.to_multiset()) =~= orig.to_multiset());
        }
    }
    assert(rest@.to_multiset() =~= Multiset::empty());
    assert(out@.to_multiset() =~= orig.to_multiset());
    out
}

/// A feed as Mission Control shows it: the rows newest first, cut to 20 with
/// an agent selected or to 10 without, unless "show all" is on; with the
/// number of rows there were.
pub fn activity_feed(rows: Vec<FeedRow>, selected: bool, show_all: bool) -> (r: (Vec<FeedRow>, usize))
    ensures
        r.1 == rows@.len(),
        r.0@.len() == feed_len(rows@.len(), selected, show_all),
        newest_first(r.0@),
        r.0@.to_multiset().subset_of(rows@.to_multiset()),
        forall|i: int| 0 <= i < r.0@.len() ==> rows@.contains(#[trigger] r.0@[i]),
        forall|x: FeedRow|
            #[trigger] rows@.to_multiset().count(x) > r.0@.to_multiset().count(x) ==> r.0@.len() > 0
                && x.timestamp <= r.0@.last().timestamp,
{
    let total = rows.len();
    let ghost orig = rows@;
    let mut all = newest_first_order(rows);
    let ghost full = all@;
    let keep: usize = if show_all {
        total
    } else {
        let cap: usize = if selected { 20 } else { 10 };
        if total < cap { total } else { cap }
    };
    proof {
        assert(full.len() == total) by {
            assert(full.to_multiset().len() == orig.to_multiset().len());
        }
    }
    all.truncate(keep);
    proof {
        let shown = full.take(keep as int);
        let left = full.skip(keep as int);
        assert(all@ =~= shown);
        assert(full =~= shown + left);
        vstd::seq_lib::lemma_multiset_commutative(shown, left);
        assert(orig.to_multiset() =~= shown.to_multiset().add(left.to_multiset()));
        assert forall|i: int| 0 <= i < all@.len() implies orig.contains(#[trigger] all@[i]) by {
            assert(all@[i] == shown[i]);
            assert(shown.contains(shown[i]));
            assert(shown.to_multiset().count(shown[i]) > 0);
            assert(orig.to_multiset().count(shown[i]) > 0);
        }
        assert forall|x: FeedRow| #[trigger] orig.to_multiset().count(x) > all@.to_multiset().count(x) implies all@.len() > 0
            && x.timestamp <= all@.last().timestamp by {
            assert(left.to_multiset().count(x) > 0);
            assert(left.contains(x));
            let k = choose|k: int| 0 <= k < left.len() && left[k] == x;
            assert(full[keep + k] == x);
            assert(keep > 0);
            assert(full[keep - 1] == all@.last());
            assert(full[keep - 1].timestamp >= full[keep + k].timestamp);
        }
    }
    (all, total)
}

/// The newest three of `rows`, which are oldest first: newest first.
pub fn newest_three<T>(rows: Vec<T>) -> (r: Vec<T>)
    ensures
        r@.len() == (if rows@.len() < 3 { rows@.len() } else { 3 }),
        forall|i: int| 0 <= i < r@.len() ==> #[trigger] r@[i] == rows@[rows@.len() - 1 - i],
{
    let ghost orig = rows@;
    let mut rest = rows;
    let mut r: Vec<T> = Vec::new();
    while r.len() < 3 && rest.len() > 0
        invariant
            r@.len() <= 3,
            rest@ == orig.take(rest@.len() as int),
            rest@.len() + r@.len() == orig.len(),
            forall|i: int| 0 <= i < r@.len() ==> #[trigger] r@[i] == orig[orig.len() - 1 - i],
        decreases rest@.len(),
    {
        let ghost before = rest@;
        let x = rest.pop().unwrap();
        proof {
            assert(x == orig[before.len() - 1]);
        }
        r.push(x);
    }
    r
}

/// How long ago something `secs` seconds old happened: seconds under a
/// minute, whole minutes under an hour, whole hours beyond.
pub open spec fn age_text(secs: int) -> Seq<char> {
    if secs < 60 {
        signed_text(secs) + "s"@
    } else if secs < 3600 {
        decimal_text((secs / 60) as nat) + "m"@
    } else {
        decimal_text((secs / 3600) as nat) + "h"@
    }
}

/// The age of a row on an agent's card, such as `42s`, `5m` or `3h`.
pub fn age_short_text(secs: i64) -> (s: String)
    ensures
        s@ == age_text(secs as int),
{
    if secs < 60 {
        let mut s = signed_decimal_i64(secs);
        append(&mut s, "s");
        s
    } else if secs < 3600 {
        let mut s = decimal((secs / 60) as u64);
        append(&mut s, "m");
        s
    } else {
        let mut s = decimal((secs / 3600) as u64);
        append(&mut s, "h");
        s
    }
}

/// The age of a feed row, such as `42s ago`, `5m ago` or `3h ago`.
pub fn time_ago_text(secs: i64) -> (s: String)
    ensures
        secs < 60 ==> s@ == signed_text(secs as int) + "s ago"@,
        60 <= secs < 3600 ==> s@ == decimal_text((secs / 60) as nat) + "m ago"@,
        secs >= 3600 ==> s@ == decimal_text((secs / 3600) as nat) + "h ago"@,
{
    let mut s = age_short_text(secs);
    append(&mut s, " ago");
    proof {
        reveal_strlit("s");
        reveal_strlit("m");
        reveal_strlit("h");
        reveal_strlit(" ago");
        reveal_strlit("s ago");
        reveal_strlit("m ago");
        reveal_strlit("h ago");
    }
    s
}

/// The label of the button under a feed of `total` rows that shows `shown`:
/// "Show Less" while everything is shown on request, "See All" while rows
/// are left out, and no button otherwise.
pub open spec fn see_all_text(total: nat, shown: nat, show_all: bool) -> Option<Seq<char>> {
    if show_all {
        Some("Show Less (showing "@ + decimal_text(shown) + ")"@)
    } else if total > shown {
        Some("See All ("@ + decimal_text(total) + " total)"@)
    } else {
        None
    }
}

/// The label of the button under a feed, if it has one.
pub fn see_all_label(total: usize, shown: usize, show_all: bool) -> (s: Option<String>)
    ensures
        s is Some <==> see_all_text(total as nat, shown as nat, show_all) is Some,
        s matches Some(t) ==> see_all_text(total as nat, shown as nat, show_all) == Some(t@),
{
    if show_all {
        let mut t = String::from_str("Show Less (showing ");
        let n = decimal(shown as u64);
        append(&mut t, n.as_str());
        append(&mut t, ")");
        Some(t)
    } else if total > shown {
        let mut t = String::from_str("See All (");
        let n = decimal(total as u64);
        append(&mut t, n.as_str());
        append(&mut t, " total)");
        Some(t)
    } else {
        None
    }
}

} // verus!
