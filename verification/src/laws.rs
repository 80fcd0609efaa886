//! Properties of the library as a whole: what search reports, discovered file
//! lists, ripgrep command lines and watch loops always satisfy.
use vstd::prelude::*;

use crate::lexical::{LexicalMatch, LexicalSearchRequestModel};
use crate::path::{lemma_lex_trichotomy, lex_le, lex_lt};
use crate::ripgrep::{
    build_args_spec, fixed_args, flag_pairs, hard_ignored_globs, is_report_of, is_truncated, match_key, match_view,
    matches_view, switch_arg, value_arg, MatchModel,
};
use crate::scanner::{dedup_by_key, discovered_key, DiscoveredFile};
use crate::sort::{is_stable_sort_of, keys_sorted, SortKey};
use crate::watcher::{
    initial_state, pending_consistent, pow2, retry_delay_spec, watch_step_spec, NativeWatcherConfig, WatchEvent, WatchLoopState,
};

verus! {

/// A search report is the input sorted into report order and cut to the limit:
/// it holds `min(count, limit)` matches, ranked 1, 2, ... in order, sorted by
/// path and then position, each one an input match; it is truncated exactly
/// when the limit cut matches off.
pub proof fn lemma_search_report_is_ranked_sorted_and_cut(input: Seq<LexicalMatch>, limit: Option<nat>, output: Seq<MatchModel>)
    requires
        is_report_of(input, limit, output),
        input.len() <= usize::MAX,
    ensures
        output.len() == (match limit {
            Some(l) => if l < input.len() { l } else { input.len() },
            None => input.len(),
        }),
        is_truncated(input.len(), limit) <==> output.len() < input.len(),
        forall|k: int| 0 <= k < output.len() ==> #[trigger] output[k].rank == k + 1,
        forall|i: int, j: int| 0 <= i < j < output.len() ==> lex_le(match_key(#[trigger] output[i]), match_key(#[trigger] output[j])),
        forall|k: int| #![trigger output[k]] 0 <= k < output.len() ==> exists|j: int|
            0 <= j < input.len() && output[k] == (MatchModel { rank: output[k].rank, ..match_view(#[trigger] input[j]) }),
{
    let sorted = choose|sorted: Seq<LexicalMatch>| is_stable_sort_of(input, sorted) && output == crate::ripgrep::ranked(matches_view(sorted), limit);
    let perm = choose|perm: Seq<int>| {
        &&& crate::sort::is_permutation(perm, input.len())
        &&& sorted.len() == input.len()
        &&& forall|k: int| 0 <= k < sorted.len() ==> #[trigger] sorted[k] == input[perm[k]]
        &&& keys_sorted(sorted)
        &&& forall|i: int, j: int| 0 <= i < j < sorted.len() && sorted[i].sort_key() == sorted[j].sort_key()
            ==> #[trigger] perm[i] < #[trigger] perm[j]
    };
    assert forall|k: int| 0 <= k < output.len() implies match_key(#[trigger] output[k]) == sorted[k].sort_key() by {
        assert(matches_view(sorted)[k] == match_view(sorted[k]));
    }
    assert forall|i: int, j: int| 0 <= i < j < output.len() implies lex_le(match_key(#[trigger] output[i]), match_key(#[trigger] output[j])) by {
        assert(match_key(output[i]) == sorted[i].sort_key());
        assert(match_key(output[j]) == sorted[j].sort_key());
    }
    assert forall|k: int| #![trigger output[k]] 0 <= k < output.len() implies exists|j: int|
        0 <= j < input.len() && output[k] == (MatchModel { rank: output[k].rank, ..match_view(#[trigger] input[j]) }) by {
        assert(matches_view(sorted)[k] == match_view(sorted[k]));
        assert(sorted[k] == input[perm[k]]);
        assert(0 <= perm[k] < input.len());
        assert(output[k] == (MatchModel { rank: output[k].rank, ..match_view(input[perm[k]]) }));
    }
}

/// A sorted list without repeats, as `dedup_by_key` leaves it: keys strictly increase,
/// and the last key is that of the input's last element.
proof fn lemma_dedup_of_sorted(s: Seq<DiscoveredFile>)
    requires
        keys_sorted(s),
    ensures
        forall|i: int, j: int| 0 <= i < j < dedup_by_key(s).len() ==> lex_lt(
            discovered_key(#[trigger] dedup_by_key(s)[i]),
            discovered_key(#[trigger] dedup_by_key(s)[j]),
        ),
        s.len() > 0 ==> dedup_by_key(s).len() > 0 && discovered_key(dedup_by_key(s).last()) == discovered_key(s.last()),
    decreases s.len(),
{
    if s.len() > 0 {
        let t = s.drop_last();
        assert forall|i: int, j: int| 0 <= i < j < t.len() implies lex_le(#[trigger] t[i].sort_key(), #[trigger] t[j].sort_key()) by {
            assert(t[i] == s[i] && t[j] == s[j]);
        }
        lemma_dedup_of_sorted(t);
        let d = dedup_by_key(t);
        let last = discovered_key(s.last());
        if d.len() > 0 && discovered_key(d.last()) == last {
        } else {
            let n = d.push(s.last());
            if d.len() > 0 {
                let prev = discovered_key(d.last());
                assert(prev == discovered_key(t.last()));
                assert(lex_le(s[t.len() - 1].sort_key(), s[s.len() - 1].sort_key()));
                assert(lex_le(prev, last));
                lemma_lex_trichotomy(prev, last);
                assert(lex_lt(prev, last));
                assert forall|i: int, j: int| 0 <= i < j < n.len() implies lex_lt(discovered_key(#[trigger] n[i]), discovered_key(#[trigger] n[j])) by {
                    if j == d.len() {
                        if i < d.len() - 1 {
                            assert(lex_lt(discovered_key(d[i]), discovered_key(d[d.len() - 1])));
                            crate::path::lemma_lex_transitive(discovered_key(d[i]), prev, last);
                        }
                    } else {
                        assert(n[i] == d[i] && n[j] == d[j]);
                    }
                }
            }
        }
    }
}

/// Discovered files come out in strictly increasing (root, path) order: every
/// list `order_discovered` returns is sorted and holds no file twice.
pub proof fn lemma_discovered_files_are_sorted_and_unique(files: Seq<DiscoveredFile>, sorted: Seq<DiscoveredFile>)
    requires
        is_stable_sort_of(files, sorted),
    ensures
        forall|i: int, j: int| 0 <= i < j < dedup_by_key(sorted).len() ==> lex_lt(
            discovered_key(#[trigger] dedup_by_key(sorted)[i]),
            discovered_key(#[trigger] dedup_by_key(sorted)[j]),
        ),
{
    lemma_dedup_of_sorted(sorted);
}

/// `flag_pairs` lays each value right behind its own copy of the flag.
proof fn lemma_flag_pair_at(flag: Seq<char>, values: Seq<Seq<char>>, k: int)
    requires
        0 <= k < values.len(),
    ensures
        flag_pairs(flag, values).len() == 2 * values.len(),
        flag_pairs(flag, values)[2 * k] == flag,
        flag_pairs(flag, values)[2 * k + 1] == values[k],
    decreases values.len(),
{
    let t = values.drop_last();
    lemma_flag_pairs_len(flag, t);
    let fv = flag_pairs(flag, values);
    let ft = flag_pairs(flag, t);
    assert(fv == ft + seq![flag, values.last()]);
    if k < t.len() {
        lemma_flag_pair_at(flag, t, k);
        assert(fv[2 * k] == ft[2 * k]);
        assert(fv[2 * k + 1] == ft[2 * k + 1]);
    }
}

proof fn lemma_flag_pairs_len(flag: Seq<char>, values: Seq<Seq<char>>)
    ensures
        flag_pairs(flag, values).len() == 2 * values.len(),
    decreases values.len(),
{
    if values.len() > 0 {
        lemma_flag_pairs_len(flag, values.drop_last());
    }
}

/// Ripgrep's command line ends with `--` and then the searched paths (`.` when
/// none are given), and each search pattern is the value of its own `--regexp`
/// flag before that `--`: no pattern is read as a flag or a path.
pub proof fn lemma_patterns_and_paths_stay_apart(req: LexicalSearchRequestModel, paths: Seq<Seq<char>>)
    ensures
        ({
            let a = build_args_spec(req, paths);
            let tail = if paths.len() == 0 { seq!["."@] } else { paths };
            &&& a.len() > tail.len()
            &&& a.subrange(a.len() - tail.len() - 1, a.len() as int) == seq!["--"@] + tail
            &&& forall|k: int| #![trigger req.patterns[k]] 0 <= k < req.patterns.len() ==> exists|i: int|
                0 <= i && i + 1 < a.len() - tail.len() - 1 && #[trigger] a[i] == "--regexp"@ && a[i + 1] == req.patterns[k]
        }),
{
    let o = req.options;
    let before = fixed_args() + switch_arg(o.fixed_strings, "--fixed-strings"@) + switch_arg(o.ignore_case, "--ignore-case"@)
        + switch_arg(o.word_regexp, "--word-regexp"@) + switch_arg(o.hidden, "--hidden"@) + switch_arg(o.no_ignore, "--no-ignore"@)
        + switch_arg(o.follow, "--follow"@) + value_arg("--max-depth"@, o.max_depth) + value_arg("--max-filesize"@, o.max_file_size_bytes)
        + flag_pairs("--ignore-file"@, o.ignore_files) + flag_pairs("--glob"@, o.globs) + flag_pairs("--type"@, o.file_types)
        + flag_pairs("--type-not"@, o.excluded_file_types) + flag_pairs("--glob"@, hard_ignored_globs());
    let pats = flag_pairs("--regexp"@, req.patterns);
    let files = flag_pairs("--file"@, req.pattern_files);
    let tail = if paths.len() == 0 { seq!["."@] } else { paths };
    let a = build_args_spec(req, paths);
    assert(a == before + pats + files + seq!["--"@] + tail);
    let head = before + pats + files;
    assert(a.subrange(a.len() - tail.len() - 1, a.len() as int) =~= seq!["--"@] + tail);
    lemma_flag_pairs_len("--regexp"@, req.patterns);
    lemma_flag_pairs_len("--file"@, req.pattern_files);
    assert forall|k: int| #![trigger req.patterns[k]] 0 <= k < req.patterns.len() implies exists|i: int|
        0 <= i && i + 1 < a.len() - tail.len() - 1 && #[trigger] a[i] == "--regexp"@ && a[i + 1] == req.patterns[k] by {
        let i = before.len() + 2 * k;
        lemma_flag_pair_at("--regexp"@, req.patterns, k);
        assert(pats[2 * k] == "--regexp"@);
        assert(pats[2 * k + 1] == req.patterns[k]);
        assert(a[i] == pats[2 * k]);
        assert(a[i + 1] == pats[2 * k + 1]);
    }
}

/// `pow2` grows with its exponent.
proof fn lemma_pow2_monotone(a: nat, b: nat)
    requires
        a <= b,
    ensures
        1 <= pow2(a) <= pow2(b),
    decreases b,
{
    if a < b {
        lemma_pow2_monotone(a, (b - 1) as nat);
    } else if a > 0 {
        lemma_pow2_monotone((a - 1) as nat, (a - 1) as nat);
    }
}

/// The retry backoff of a failed watcher backend is always between 100 ms and
/// 5 s, and never shrinks as failures accumulate.
pub proof fn lemma_retry_delay_is_bounded_and_grows(a: u32, b: u32)
    ensures
        100 <= retry_delay_spec(a) <= 5000,
        a <= b ==> retry_delay_spec(a) <= retry_delay_spec(b),
{
    let ea: nat = if a == 0 { 0 } else if a - 1 > 6 { 6 } else { (a - 1) as nat };
    let eb: nat = if b == 0 { 0 } else if b - 1 > 6 { 6 } else { (b - 1) as nat };
    lemma_pow2_monotone(ea, ea);
    lemma_pow2_monotone(eb, eb);
    if a <= b {
        lemma_pow2_monotone(ea, eb);
    }
}

/// Whether a watch event carries a delivered flush.
pub open spec fn is_delivered_flush(e: WatchEvent) -> bool {
    e matches WatchEvent::Flushed { delivered } && delivered
}

/// Every reachable state of a watch loop is consistent: the initial state is, and each
/// step keeps it so.
pub proof fn lemma_watch_state_stays_consistent(c: NativeWatcherConfig, now: u64, s: WatchLoopState, e: WatchEvent)
    ensures
        pending_consistent(initial_state(c, now)),
        pending_consistent(s) ==> pending_consistent(watch_step_spec(c, s, e).0),
{
}

/// No batch is ever empty: a step asks for a flush only while changes wait, and a passed
/// flush deadline with nothing waiting sends nothing and clears both deadlines. A batch is
/// the single `Rescan` change exactly when a full rescan waits.
pub proof fn lemma_batches_are_never_empty(c: NativeWatcherConfig, s: WatchLoopState, e: WatchEvent)
    ensures
        watch_step_spec(c, s, e).1.flush ==> s.pending,
        watch_step_spec(c, s, e).1.flush ==> (watch_step_spec(c, s, e).1.rescan_batch <==> s.rescan_pending),
        watch_step_spec(c, s, e).1.rescan_batch ==> watch_step_spec(c, s, e).1.flush,
        (e is DebounceElapsed || e is MaxWaitElapsed) && !s.pending ==> {
            let (next, fx) = watch_step_spec(c, s, e);
            &&& !fx.flush
            &&& next.debounce_deadline is None
            &&& next.max_wait_deadline is None
        },
{
}

/// A stream of changes cannot postpone a pending flush: once a maximum-wait
/// deadline is set, no step but a delivered flush moves or clears it.
pub proof fn lemma_max_wait_is_never_postponed(c: NativeWatcherConfig, s: WatchLoopState, e: WatchEvent)
    requires
        pending_consistent(s),
        s.max_wait_deadline is Some,
        !is_delivered_flush(e),
    ensures
        watch_step_spec(c, s, e).0.max_wait_deadline == s.max_wait_deadline,
{
}

/// New pending changes always get a flush deadline: after changes are added,
/// both the debounce and the maximum-wait deadlines are set.
pub proof fn lemma_pending_changes_are_scheduled(c: NativeWatcherConfig, s: WatchLoopState, now: u64)
    ensures
        ({
            let next = watch_step_spec(c, s, WatchEvent::ChangesAdded { now, pending: true }).0;
            &&& next.debounce_deadline == Some((now + c.debounce_ms) as u64)
            &&& next.max_wait_deadline is Some
            &&& next.pending
        }),
{
}

/// The state a watch loop reaches from `s` after the steps `events`, in order.
pub open spec fn run_watch_steps(c: NativeWatcherConfig, s: WatchLoopState, events: Seq<WatchEvent>) -> WatchLoopState
    decreases events.len(),
{
    if events.len() == 0 {
        s
    } else {
        run_watch_steps(c, watch_step_spec(c, s, events[0]).0, events.drop_first())
    }
}

proof fn lemma_deadline_survives(c: NativeWatcherConfig, s: WatchLoopState, events: Seq<WatchEvent>)
    requires
        pending_consistent(s),
        s.max_wait_deadline is Some,
        forall|i: int| 0 <= i < events.len() ==> !is_delivered_flush(#[trigger] events[i]),
    ensures
        ({
            let last = run_watch_steps(c, s, events);
            &&& last.max_wait_deadline == s.max_wait_deadline
            &&& pending_consistent(last)
            &&& last.pending
            &&& s.rescan_pending ==> last.rescan_pending
        }),
    decreases events.len(),
{
    if events.len() > 0 {
        lemma_max_wait_is_never_postponed(c, s, events[0]);
        lemma_watch_state_stays_consistent(c, 0, s, events[0]);
        let rest = events.drop_first();
        assert forall|i: int| 0 <= i < rest.len() implies !is_delivered_flush(#[trigger] rest[i]) by {
            assert(rest[i] == events[i + 1]);
        }
        lemma_deadline_survives(c, watch_step_spec(c, s, events[0]).0, rest);
    }
}

/// A batch is sent within the maximum wait of the first change: changes added at `now`
/// get a maximum-wait deadline no later than `now + max_wait` (exactly that when none was
/// set); whatever events follow, short of a delivered flush, that deadline stays, and when
/// it passes the loop flushes the waiting changes.
pub proof fn lemma_batch_within_max_wait(c: NativeWatcherConfig, s: WatchLoopState, now: u64, later: Seq<WatchEvent>)
    requires
        pending_consistent(s),
        s.max_wait_deadline matches Some(d) ==> d <= now + c.max_wait_ms,
        now + c.max_wait_ms <= u64::MAX,
        forall|i: int| 0 <= i < later.len() ==> !is_delivered_flush(#[trigger] later[i]),
    ensures
        ({
            let first = watch_step_spec(c, s, WatchEvent::ChangesAdded { now, pending: true }).0;
            let last = run_watch_steps(c, first, later);
            &&& first.max_wait_deadline matches Some(d) && d <= now + c.max_wait_ms
            &&& s.max_wait_deadline is None ==> first.max_wait_deadline == Some((now + c.max_wait_ms) as u64)
            &&& last.max_wait_deadline == first.max_wait_deadline
            &&& watch_step_spec(c, last, WatchEvent::MaxWaitElapsed).1.flush
        }),
{
    let first = watch_step_spec(c, s, WatchEvent::ChangesAdded { now, pending: true }).0;
    lemma_deadline_survives(c, first, later);
}

/// After the event queue overflows, the next batch is a full rescan, sent within the
/// maximum wait of the overflow: the overflow marks a full rescan and keeps or sets a
/// maximum-wait deadline no later than `now + max_wait`; whatever events follow, short of a
/// delivered flush, the rescan and the deadline stay, and any flush deadline that passes
/// sends the single `Rescan` change.
pub proof fn lemma_overflow_batch_is_a_rescan(c: NativeWatcherConfig, s: WatchLoopState, now: u64, later: Seq<WatchEvent>)
    requires
        pending_consistent(s),
        s.max_wait_deadline matches Some(d) ==> d <= now + c.max_wait_ms,
        now + c.max_wait_ms <= u64::MAX,
        forall|i: int| 0 <= i < later.len() ==> !is_delivered_flush(#[trigger] later[i]),
    ensures
        ({
            let first = watch_step_spec(c, s, WatchEvent::OverflowNotified { now, overflowed: true }).0;
            let last = run_watch_steps(c, first, later);
            &&& first.max_wait_deadline matches Some(d) && d <= now + c.max_wait_ms
            &&& last.max_wait_deadline == first.max_wait_deadline
            &&& last.rescan_pending
            &&& watch_step_spec(c, last, WatchEvent::MaxWaitElapsed).1.flush
            &&& watch_step_spec(c, last, WatchEvent::MaxWaitElapsed).1.rescan_batch
            &&& watch_step_spec(c, last, WatchEvent::DebounceElapsed).1.rescan_batch
        }),
{
    let first = watch_step_spec(c, s, WatchEvent::OverflowNotified { now, overflowed: true }).0;
    lemma_deadline_survives(c, first, later);
}

/// A watch loop stops only when it is closed, when its raw event channel
/// closes, or when a batch cannot be delivered.
pub proof fn lemma_watch_loop_stops_only_when_closed(c: NativeWatcherConfig, s: WatchLoopState, e: WatchEvent)
    ensures
        watch_step_spec(c, s, e).1.stop <==> (e is Closed || e is RawChannelClosed || e matches WatchEvent::Flushed {
            delivered: false,
        }),
{
}


/// The index an embedding item names (meaningful when it has one).
pub open spec fn text_item_index(it: crate::qwen::TextEmbeddingItem) -> int {
    it.index->Some_0 as int
}

/// Whether a text embedding item is an object with an in-range index and a vector.
pub open spec fn text_item_usable(it: crate::qwen::TextEmbeddingItem, count: nat) -> bool {
    it.is_object && it.index is Some && 0 <= text_item_index(it) < count && it.embedding is Some
}

proof fn lemma_place_text_from(
    entry: crate::qwen::QwenConfig,
    code: Seq<char>,
    count: nat,
    items: Seq<crate::qwen::TextEmbeddingItem>,
    k: int,
    slots: Seq<Option<Seq<u32>>>,
)
    requires
        0 <= k <= items.len(),
        slots.len() == count,
        forall|m: int| 0 <= m < items.len() ==> text_item_usable(#[trigger] items[m], count),
        forall|a: int, b: int| 0 <= a < b < items.len() ==> text_item_index(#[trigger] items[a]) != text_item_index(#[trigger] items[b]),
    ensures
        crate::qwen::place_text_items(entry, code, count, items, k, slots) matches Ok(r) && {
            &&& r.len() == count
            &&& forall|m: int| k <= m < items.len() ==> r[text_item_index(#[trigger] items[m])] == Some(items[m].embedding->Some_0@)
            &&& forall|j: int| 0 <= j < count && (forall|m: int| k <= m < items.len() ==> text_item_index(#[trigger] items[m]) != j)
                ==> r[j] == slots[j]
        },
    decreases items.len() - k,
{
    if k < items.len() {
        let it = items[k];
        assert(text_item_usable(it, count));
        let i = text_item_index(it);
        let next = slots.update(i, Some(it.embedding->Some_0@));
        lemma_place_text_from(entry, code, count, items, k + 1, next);
        let r = crate::qwen::place_text_items(entry, code, count, items, k + 1, next)->Ok_0;
        assert(crate::qwen::place_text_items(entry, code, count, items, k, slots) == crate::qwen::place_text_items(entry, code, count, items, k + 1, next));
        assert forall|m: int| k <= m < items.len() implies r[text_item_index(#[trigger] items[m])] == Some(items[m].embedding->Some_0@) by {
            if m == k {
                assert forall|m2: int| k + 1 <= m2 < items.len() implies text_item_index(#[trigger] items[m2]) != i by {
                    assert(text_item_index(items[k]) != text_item_index(items[m2]));
                }
            }
        }
        assert forall|j: int| 0 <= j < count && (forall|m: int| k <= m < items.len() ==> text_item_index(#[trigger] items[m]) != j)
            implies r[j] == slots[j] by {
            assert(text_item_index(items[k]) != j);
            assert forall|m2: int| k + 1 <= m2 < items.len() implies text_item_index(#[trigger] items[m2]) != j by {
                assert(k <= m2);
            }
        }
    }
}

/// Embedding vectors land in input order whatever order the provider lists
/// them in: each vector goes to the slot its item's index names, and a slot
/// no item names stays empty.
pub proof fn lemma_text_vectors_follow_their_indices(
    entry: crate::qwen::QwenConfig,
    code: Seq<char>,
    count: nat,
    items: Seq<crate::qwen::TextEmbeddingItem>,
)
    requires
        forall|m: int| 0 <= m < items.len() ==> text_item_usable(#[trigger] items[m], count),
        forall|a: int, b: int| 0 <= a < b < items.len() ==> text_item_index(#[trigger] items[a]) != text_item_index(#[trigger] items[b]),
    ensures
        crate::qwen::place_text_items(entry, code, count, items, 0, crate::qwen::empty_slots(count)) matches Ok(r) && {
            &&& r.len() == count
            &&& forall|m: int| 0 <= m < items.len() ==> r[text_item_index(#[trigger] items[m])] == Some(items[m].embedding->Some_0@)
            &&& forall|j: int| 0 <= j < count && (forall|m: int| 0 <= m < items.len() ==> text_item_index(#[trigger] items[m]) != j)
                ==> r[j] is None
        },
{
    lemma_place_text_from(entry, code, count, items, 0, crate::qwen::empty_slots(count));
}

} // verus!
