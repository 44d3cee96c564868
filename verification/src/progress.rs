//! Progress messages.
//!
//! A run announces each frame with a message "PROGRESS:current/total:text".
//! The server reads the counts back from the messages that it publishes.

use crate::capture::plan::PlanStep;
use crate::capture::run::SequenceRun;
use crate::number::{decimal, law_decimal_round_trip, law_read_back, parse_decimal, read_in_base};
use crate::state::SequenceProgress;
use crate::text::{
    begins, chars_of, find, lemma_find, occurs_at, position_of, split, split_by, stands_at,
    string_of, views,
};
use vstd::prelude::*;
use vstd::slice::slice_subrange;

verus! {

/// The progress that a message "PROGRESS:current/total:text" tells.
pub open spec fn progress_of(msg: Seq<char>) -> Option<(nat, nat, Seq<char>)> {
    if !begins(msg, "PROGRESS:"@) {
        None
    } else {
        let rest = msg.skip("PROGRESS:"@.len() as int);
        match find(rest, seq![':']) {
            Some(k) => {
                let p = split(rest.take(k), seq!['/']);
                if p.len() == 2 {
                    match (parse_decimal(p[0], 0xffff_ffff), parse_decimal(p[1], 0xffff_ffff)) {
                        (Some(c), Some(t)) => Some((c, t, rest.skip(k + 1))),
                        _ => None,
                    }
                } else {
                    None
                }
            },
            None => None,
        }
    }
}

/// Reads the progress that a message tells.
pub fn parse_progress(msg: &str) -> (r: Option<SequenceProgress>)
    ensures
        match r {
            Some(p) => progress_of(msg@) == Some((p.current as nat, p.total as nat, p.msg@)),
            None => progress_of(msg@) is None,
        },
{
    let c = chars_of(msg);
    let head = chars_of("PROGRESS:");
    if !stands_at(c.as_slice(), head.as_slice(), 0) {
        return None;
    }
    let rest = slice_subrange(c.as_slice(), head.len(), c.len());
    assert(rest@ =~= msg@.skip("PROGRESS:"@.len() as int));
    let mut colon: Vec<char> = Vec::new();
    colon.push(':');
    assert(colon@ =~= seq![':']);
    let k = match position_of(rest, colon.as_slice()) {
        Some(k) => k,
        None => return None,
    };
    let counts = slice_subrange(rest, 0, k);
    assert(counts@ =~= rest@.take(k as int));
    let mut slash: Vec<char> = Vec::new();
    slash.push('/');
    assert(slash@ =~= seq!['/']);
    let p = split_by(counts, slash.as_slice());
    assert(views(p@).len() == p@.len());
    if p.len() != 2 {
        return None;
    }
    assert(views(p@)[0] == p@[0]@ && views(p@)[1] == p@[1]@);
    match (
        read_in_base(p[0].as_slice(), 10, 0xffff_ffff),
        read_in_base(p[1].as_slice(), 10, 0xffff_ffff),
    ) {
        (Some(current), Some(total)) => {
            let tail = slice_subrange(rest, k + 1, rest.len());
            assert(tail@ =~= rest@.skip(k + 1));
            Some(
                SequenceProgress {
                    current: current as u32,
                    total: total as u32,
                    msg: string_of(tail),
                },
            )
        },
        _ => None,
    }
}


/// The first `c` stands behind a part without `c`.
proof fn lemma_find_behind(a: Seq<char>, c: char, b: Seq<char>)
    requires
        forall|i: int| 0 <= i < a.len() ==> a[i] != c,
    ensures
        find(a + seq![c] + b, seq![c]) == Some(a.len() as int),
{
    let s = a + seq![c] + b;
    lemma_find(s, seq![c]);
    assert(s.subrange(a.len() as int, a.len() as int + 1) =~= seq![c]);
    assert(occurs_at(s, seq![c], a.len() as int));
    let k = find(s, seq![c])->0;
    if k < a.len() {
        assert(s.subrange(k, k + 1)[0] == a[k]);
    }
}

/// A part without `c` is not split at `c`.
proof fn lemma_split_none(a: Seq<char>, c: char)
    requires
        forall|i: int| 0 <= i < a.len() ==> a[i] != c,
    ensures
        split(a, seq![c]) == seq![a],
{
    lemma_find(a, seq![c]);
    if find(a, seq![c]) is Some {
        let k = find(a, seq![c])->0;
        assert(a.subrange(k, k + 1)[0] == a[k]);
    }
}

/// Digits are neither a colon nor a slash.
proof fn lemma_no_separator(n: nat)
    ensures
        forall|i: int|
            0 <= i < decimal(n).len() ==> decimal(n)[i] != ':' && decimal(n)[i] != '/',
{
    law_read_back(n, 10);
}

/// Two counts with a slash between them are told apart.
proof fn lemma_counts(current: nat, total: nat)
    ensures
        split(decimal(current) + seq!['/'] + decimal(total), seq!['/']) == seq![
            decimal(current),
            decimal(total),
        ],
{
    let a = decimal(current);
    let b = decimal(total);
    let counts = a + seq!['/'] + b;
    lemma_no_separator(current);
    lemma_no_separator(total);
    lemma_find_behind(a, '/', b);
    lemma_split_none(b, '/');
    assert(counts.take(a.len() as int) =~= a);
    assert(counts.skip(a.len() as int + 1) =~= b);
    assert(split(counts, seq!['/']) =~= seq![a] + split(b, seq!['/']));
}

/// What was announced as `current` of `total` is read back.
pub proof fn law_progress_read_back(current: nat, total: nat, msg: Seq<char>)
    requires
        current <= u32::MAX,
        total <= u32::MAX,
    ensures
        progress_of("PROGRESS:"@ + decimal(current) + "/"@ + decimal(total) + ":"@ + msg) == Some(
            (current, total, msg),
        ),
{
    let head = "PROGRESS:"@;
    let counts = decimal(current) + seq!['/'] + decimal(total);
    let all = head + decimal(current) + "/"@ + decimal(total) + ":"@ + msg;
    let rest = counts + seq![':'] + msg;
    assert(all =~= head + rest) by {
        reveal_strlit("/");
        reveal_strlit(":");
    }
    assert(begins(all, head)) by {
        assert(all.subrange(0, head.len() as int) =~= head);
    }
    assert(all.skip(head.len() as int) =~= rest);
    assert(find(rest, seq![':']) == Some(counts.len() as int)) by {
        lemma_no_separator(current);
        lemma_no_separator(total);
        lemma_find_behind(counts, ':', msg);
    }
    assert(rest.take(counts.len() as int) =~= counts);
    assert(rest.skip(counts.len() as int + 1) =~= msg);
    lemma_counts(current, total);
    law_decimal_round_trip(current, 0xffff_ffff);
    law_decimal_round_trip(total, 0xffff_ffff);
}

/// The message with which a run announces a frame tells the index of the frame
/// and the number of frames, then its kind, its number among those of its item
/// and its exposure.
pub proof fn law_run_progress_read_back(run: SequenceRun, k: int)
    requires
        0 <= k < run.steps@.len(),
        run.steps@[k] is Frame,
    ensures
        progress_of(run.progress_note(k)) matches Some(told) && told.0
            == run.steps@[k]->Frame_index && told.1 == run.total && told.2 == "Capturing "@
            + run.item_of(k).item_type.folder() + " frame "@ + decimal(
            run.steps@[k]->number as nat,
        ) + "/"@ + decimal(run.item_of(k).count as nat) + " ("@ + run.item_of(k).used_exposure()
            + "s)..."@,
{
    let it = run.item_of(k);
    match run.steps@[k] {
        PlanStep::Frame { number, index, .. } => {
            reveal_strlit(":Capturing ");
            reveal_strlit(":");
            reveal_strlit("Capturing ");
            let msg = "Capturing "@ + it.item_type.folder() + " frame "@ + decimal(number as nat)
                + "/"@ + decimal(it.count as nat) + " ("@ + it.used_exposure() + "s)..."@;
            law_progress_read_back(index as nat, run.total as nat, msg);
            let head = "PROGRESS:"@ + decimal(index as nat) + "/"@ + decimal(run.total as nat);
            assert(":Capturing "@ =~= ":"@ + "Capturing "@);
            assert(run.progress_note(k) =~= head + ":"@ + msg);
        },
        PlanStep::Item { .. } => {},
    }
}

} // verus!
