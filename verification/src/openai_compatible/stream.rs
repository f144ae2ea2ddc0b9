//! Turning streamed provider updates into completion chunks, assembling tool
//! calls from their fragments and releasing them when generation finishes.
use crate::error::LlmError;
use crate::models::{CompletionChunk, FinishReason, ToolCall};
use crate::openai_compatible::errors::{llm_error_for, OpenAiClientError};
use crate::openai_compatible::mapping::copy_opt_string;
use crate::openai_compatible::models::{
    apply_delta, apply_delta_seq, call_of_pending, empty_pending, joined_arguments,
    latest_id, latest_name, law_fragments_accumulate, pending_complete, pending_error,
    ChatCompletionsStreamChoice, ChatCompletionsStreamResponse, ChatCompletionsToolCallDelta,
    ChoicesFinishReason, PendingToolCall, PendingView,
};
use std::collections::BTreeMap;
use vstd::prelude::*;
use vstd::std_specs::btree::{increasing_seq, spec_keys_iter};
use vstd::std_specs::cmp::OrdSpec;
use vstd::std_specs::iter::IteratorSpec;

verus! {

broadcast use {vstd::std_specs::btree::group_btree_axioms, vstd::laws_cmp::group_laws_cmp};

/// The shared finish reason for the provider's.
pub open spec fn domain_finish_reason(reason: ChoicesFinishReason) -> FinishReason {
    match reason {
        ChoicesFinishReason::Stop => FinishReason::Stop,
        ChoicesFinishReason::Length => FinishReason::Length,
        ChoicesFinishReason::ToolCalls => FinishReason::ToolCalls,
        ChoicesFinishReason::ContentFilter => FinishReason::ContentFilter,
    }
}

/// The shared finish reason for the provider's.
pub fn to_domain_finish_reason(reason: &ChoicesFinishReason) -> (out: FinishReason)
    ensures
        out == domain_finish_reason(*reason),
        *reason is Stop ==> out is Stop,
        *reason is Length ==> out is Length,
        *reason is ToolCalls ==> out is ToolCalls,
        *reason is ContentFilter ==> out is ContentFilter,
{
    match reason {
        ChoicesFinishReason::Stop => FinishReason::Stop,
        ChoicesFinishReason::Length => FinishReason::Length,
        ChoicesFinishReason::ToolCalls => FinishReason::ToolCalls,
        ChoicesFinishReason::ContentFilter => FinishReason::ContentFilter,
    }
}

/// The pending calls after applying `deltas` in order, each to the call at its
/// index (a call no fragment had reached starts empty).
pub open spec fn apply_deltas(
    pending: Map<usize, PendingView>,
    deltas: Seq<ChatCompletionsToolCallDelta>,
) -> Map<usize, PendingView>
    decreases deltas.len(),
{
    if deltas.len() == 0 {
        pending
    } else {
        let d = deltas[0];
        let current = if pending.contains_key(d.index) {
            pending[d.index]
        } else {
            empty_pending()
        };
        apply_deltas(pending.insert(d.index, apply_delta(current, d)), deltas.drop_first())
    }
}

/// `keys` lists the keys of `pending`, each once, in increasing order.
pub open spec fn sorted_keys(pending: Map<usize, PendingView>, keys: Seq<usize>) -> bool {
    &&& forall|i: int, j: int| 0 <= i < j < keys.len() ==> keys[i] < keys[j]
    &&& forall|k: usize| pending.contains_key(k) <==> keys.contains(k)
}

/// `result` is every pending call, in the order of `keys`, turned into a tool
/// call; or, when one lacks its identifier or name, the error for the first such.
pub open spec fn finished_in_order(
    pending: Map<usize, PendingView>,
    keys: Seq<usize>,
    result: Result<Seq<ToolCall>, LlmError>,
) -> bool {
    match result {
        Ok(calls) => calls.len() == keys.len() && forall|i: int|
            0 <= i < keys.len() ==> pending_complete(#[trigger] pending[keys[i]])
                && call_of_pending(pending[keys[i]], calls[i]),
        Err(e) => exists|i: int|
            0 <= i < keys.len() && !pending_complete(#[trigger] pending[keys[i]]) && (forall|j: int|
                0 <= j < i ==> pending_complete(#[trigger] pending[keys[j]])) && pending_error(
                pending[keys[i]],
                e,
            ),
    }
}

/// The first alternative of a streamed update, if there is one.
pub open spec fn first_choice(update: ChatCompletionsStreamResponse) -> Option<
    ChatCompletionsStreamChoice,
> {
    if update.choices@.len() > 0 {
        Some(update.choices@[0])
    } else {
        None
    }
}

/// The tool call fragments of an update's first alternative.
pub open spec fn update_deltas(update: ChatCompletionsStreamResponse) -> Seq<ChatCompletionsToolCallDelta> {
    match first_choice(update) {
        Some(c) => c.delta.tool_calls@,
        None => Seq::empty(),
    }
}

/// The new text of an update's first alternative.
pub open spec fn update_text(update: ChatCompletionsStreamResponse) -> Option<String> {
    match first_choice(update) {
        Some(c) => c.delta.content,
        None => None,
    }
}

/// The new reasoning of an update's first alternative.
pub open spec fn update_reasoning(update: ChatCompletionsStreamResponse) -> Option<String> {
    match first_choice(update) {
        Some(c) => c.delta.reasoning_content,
        None => None,
    }
}

/// Why generation stopped, when the update's first alternative says it did.
pub open spec fn update_finish(update: ChatCompletionsStreamResponse) -> Option<ChoicesFinishReason> {
    match first_choice(update) {
        Some(c) => c.finish_reason,
        None => None,
    }
}

/// The chunk and the pending calls that follow `update` from `before`: the
/// update's tool call fragments are applied; unless the update finishes
/// generation, the chunk carries its text and reasoning and no tool call; when
/// it does, every pending call is released, in index order, and none stays.
pub open spec fn chunk_for_update(
    before: Map<usize, PendingView>,
    update: ChatCompletionsStreamResponse,
    after: Map<usize, PendingView>,
    chunk: Result<CompletionChunk, LlmError>,
) -> bool {
    let updated = apply_deltas(before, update_deltas(update));
    match update_finish(update) {
        Some(reason) => {
            &&& after == Map::<usize, PendingView>::empty()
            &&& exists|keys: Seq<usize>|
                #![trigger sorted_keys(apply_deltas(before, update_deltas(update)), keys)]
                sorted_keys(updated, keys) && match chunk {
                    Ok(out) => finished_in_order(updated, keys, Ok(out.tool_calls@)) && out.text
                        == update_text(update) && out.reasoning == update_reasoning(update)
                        && out.finished_reason == Some(domain_finish_reason(reason)),
                    Err(e) => finished_in_order(updated, keys, Err(e)),
                }
        },
        None => {
            &&& after == updated
            &&& chunk matches Ok(out)
            &&& out.text == update_text(update)
            &&& out.reasoning == update_reasoning(update)
            &&& out.tool_calls@.len() == 0
            &&& out.finished_reason is None
        },
    }
}

/// The order of a map's keys is fixed: two increasing listings of them agree.
pub proof fn law_sorted_keys_unique(
    pending: Map<usize, PendingView>,
    keys1: Seq<usize>,
    keys2: Seq<usize>,
)
    requires
        sorted_keys(pending, keys1),
        sorted_keys(pending, keys2),
    ensures
        keys1 == keys2,
    decreases keys1.len() + keys2.len(),
{
    if keys1.len() == 0 {
        if keys2.len() > 0 {
            assert(keys2.contains(keys2[0]));
            assert(keys1.contains(keys2[0]));
        }
        assert(keys1 =~= keys2);
    } else if keys2.len() == 0 {
        assert(keys1.contains(keys1[0]));
        assert(keys2.contains(keys1[0]));
    } else {
        let a = keys1[0];
        let b = keys2[0];
        assert(keys1.contains(a));
        assert(keys2.contains(b));
        assert(keys2.contains(a));
        assert(keys1.contains(b));
        let ia = choose|i: int| 0 <= i < keys2.len() && keys2[i] == a;
        let ib = choose|i: int| 0 <= i < keys1.len() && keys1[i] == b;
        if a < b {
            assert(keys2[ia] >= b);
        }
        if b < a {
            assert(keys1[ib] >= a);
        }
        assert(a == b);
        let rest = pending.remove(a);
        let t1 = keys1.drop_first();
        let t2 = keys2.drop_first();
        assert forall|k: usize| rest.contains_key(k) <==> t1.contains(k) by {
            if t1.contains(k) {
                let i = choose|i: int| 0 <= i < t1.len() && t1[i] == k;
                assert(keys1[i + 1] == k);
                assert(keys1.contains(k));
            }
            if rest.contains_key(k) {
                assert(keys1.contains(k));
                let i = choose|i: int| 0 <= i < keys1.len() && keys1[i] == k;
                assert(i != 0);
                assert(t1[i - 1] == k);
            }
        }
        assert forall|k: usize| rest.contains_key(k) <==> t2.contains(k) by {
            if t2.contains(k) {
                let i = choose|i: int| 0 <= i < t2.len() && t2[i] == k;
                assert(keys2[i + 1] == k);
                assert(keys2.contains(k));
            }
            if rest.contains_key(k) {
                assert(keys2.contains(k));
                let i = choose|i: int| 0 <= i < keys2.len() && keys2[i] == k;
                assert(i != 0);
                assert(t2[i - 1] == k);
            }
        }
        law_sorted_keys_unique(rest, t1, t2);
        assert(keys1 =~= seq![a] + t1);
        assert(keys2 =~= seq![b] + t2);
    }
}

/// Map keys listed by the map are in increasing order.
proof fn lemma_listed_keys_increase(keys: Seq<&usize>)
    requires
        increasing_seq(keys),
    ensures
        forall|i: int, j: int| 0 <= i < j < keys.len() ==> *keys[i] < *keys[j],
{
    vstd::std_specs::btree::axiom_increasing_seq_meaning::<&usize>(keys);
    assert forall|i: int, j: int| 0 <= i < j < keys.len() implies *keys[i] < *keys[j] by {
        assert(OrdSpec::cmp_spec(&keys[i], &keys[j]) is Less);
    }
}

/// The keys of `pending`, in increasing order.
fn keys_in_order(pending: &BTreeMap<usize, PendingToolCall>) -> (keys: Vec<usize>)
    ensures
        forall|i: int, j: int| 0 <= i < j < keys@.len() ==> keys@[i] < keys@[j],
        forall|k: usize| pending@.contains_key(k) <==> keys@.contains(k),
{
    let mut keys: Vec<usize> = Vec::new();
    let listed = pending.keys();
    let ghost remaining = listed.remaining();
    proof {
        assert(listed == spec_keys_iter(pending));
    }
    for k in it: listed
        invariant
            keys@ == it.seq().take(it.index() as int).map_values(|k: &usize| *k),
            it.seq() == remaining,
    {
        keys.push(*k);
    }
    proof {
        assert(keys@ =~= remaining.unref());
        lemma_listed_keys_increase(remaining);
    }
    keys
}

/// The released calls as a sequence.
pub open spec fn calls_view(calls: Result<Vec<ToolCall>, LlmError>) -> Result<Seq<ToolCall>, LlmError> {
    match calls {
        Ok(v) => Ok(v@),
        Err(e) => Err(e),
    }
}

/// The views of the pending calls.
pub open spec fn pending_views(pending: Map<usize, PendingToolCall>) -> Map<usize, PendingView> {
    pending.map_values(|p: PendingToolCall| p@)
}

/// Tracks the tool calls of a streamed completion while their fragments arrive.
pub struct StreamAssembler {
    pending_tool_calls: BTreeMap<usize, PendingToolCall>,
}

impl StreamAssembler {
    /// The calls being assembled, by index.
    pub closed spec fn pending(self) -> Map<usize, PendingView> {
        pending_views(self.pending_tool_calls@)
    }

    /// An assembler with no call in progress.
    pub fn new() -> (assembler: Self)
        ensures
            assembler.pending() == Map::<usize, PendingView>::empty(),
    {
        let assembler = StreamAssembler { pending_tool_calls: BTreeMap::new() };
        proof {
            assert(assembler.pending() =~= Map::<usize, PendingView>::empty());
        }
        assembler
    }

    /// Applies fragments, in order, to the calls at their indices.
    fn apply_all(&mut self, deltas: &Vec<ChatCompletionsToolCallDelta>)
        ensures
            final(self).pending() == apply_deltas(old(self).pending(), deltas@),
    {
        let ghost start = self.pending();
        let mut i: usize = 0;
        proof {
            assert(deltas@.skip(0) =~= deltas@);
        }
        while i < deltas.len()
            invariant
                0 <= i <= deltas.len(),
                apply_deltas(start, deltas@) == apply_deltas(self.pending(), deltas@.skip(i as int)),
            decreases deltas.len() - i,
        {
            let delta = &deltas[i];
            let ghost before = self.pending();
            let mut call = match self.pending_tool_calls.remove(&delta.index) {
                Some(call) => call,
                None => PendingToolCall::default(),
            };
            call.apply(delta);
            self.pending_tool_calls.insert(delta.index, call);
            proof {
                let current = if before.contains_key(delta.index) {
                    before[delta.index]
                } else {
                    empty_pending()
                };
                assert(self.pending() =~= before.insert(
                    delta.index,
                    apply_delta(current, *delta),
                ));
                let rest = deltas@.skip(i as int);
                assert(rest[0] == *delta);
                assert(rest.drop_first() =~= deltas@.skip(i + 1));
            }
            i = i + 1;
        }
    }

    /// Releases every pending call, in index order, leaving none.
    fn release_all(&mut self) -> (calls: Result<Vec<ToolCall>, LlmError>)
        ensures
            final(self).pending() == Map::<usize, PendingView>::empty(),
            exists|keys: Seq<usize>|
                #![trigger sorted_keys(old(self).pending(), keys)]
                sorted_keys(old(self).pending(), keys) && finished_in_order(
                    old(self).pending(),
                    keys,
                    calls_view(calls),
                ),
    {
        let mut taken: BTreeMap<usize, PendingToolCall> = BTreeMap::new();
        std::mem::swap(&mut taken, &mut self.pending_tool_calls);
        proof {
            assert(self.pending() =~= Map::<usize, PendingView>::empty());
        }
        let ghost all = pending_views(taken@);
        let ghost original = taken@;
        let keys = keys_in_order(&taken);
        let ghost ks = keys@;
        proof {
            assert(sorted_keys(all, ks));
            assert(all == old(self).pending());
            assert forall|j: int| 0 <= j < ks.len() implies taken@.contains_key(#[trigger] ks[j])
                && taken@[ks[j]] == original[ks[j]] by {
                assert(ks.contains(ks[j]));
            }
        }
        let mut calls: Vec<ToolCall> = Vec::new();
        let mut i: usize = 0;
        while i < keys.len()
            invariant
                0 <= i <= keys.len(),
                ks == keys@,
                all == pending_views(original),
                all == old(self).pending(),
                self.pending() == Map::<usize, PendingView>::empty(),
                sorted_keys(all, ks),
                forall|j: int|
                    i <= j < ks.len() ==> taken@.contains_key(#[trigger] ks[j]) && taken@[ks[j]]
                        == original[ks[j]],
                calls@.len() == i,
                forall|j: int|
                    0 <= j < i ==> pending_complete(#[trigger] all[ks[j]]) && call_of_pending(
                        all[ks[j]],
                        calls@[j],
                    ),
            decreases keys.len() - i,
        {
            let key = keys[i];
            let ghost before = taken@;
            proof {
                assert(ks[i as int] == key);
                assert(before.contains_key(key));
            }
            let call = taken.remove(&key).unwrap();
            proof {
                assert(ks[i as int] == key);
                assert(ks.contains(key));
                assert(all.contains_key(key));
                assert(original.contains_key(key));
                assert(call == original[key]);
                assert(call@ == all[key]);
                assert forall|j: int| i + 1 <= j < ks.len() implies taken@.contains_key(
                    #[trigger] ks[j],
                ) && taken@[ks[j]] == original[ks[j]] by {
                    assert(ks[j] != key);
                    assert(before.contains_key(ks[j]));
                }
            }
            match call.finish() {
                Ok(tool_call) => {
                    calls.push(tool_call);
                },
                Err(e) => {
                    proof {
                        assert(finished_in_order(all, ks, Err(e)));
                    }
                    return Err(e);
                },
            }
            i = i + 1;
        }
        proof {
            assert(finished_in_order(all, ks, Ok(calls@)));
        }
        Ok(calls)
    }

    /// Takes the next item of the stream: a decoding or transport failure becomes
    /// the provider-neutral error and leaves the pending calls as they were; an
    /// update becomes the chunk described by [`chunk_for_update`].
    pub fn accept(&mut self, item: Result<ChatCompletionsStreamResponse, OpenAiClientError>) -> (chunk:
        Result<CompletionChunk, LlmError>)
        ensures
            match item {
                Err(e) => chunk == Err::<CompletionChunk, LlmError>(llm_error_for(e))
                    && final(self).pending() == old(self).pending(),
                Ok(update) => chunk_for_update(old(self).pending(), update, final(self).pending(), chunk),
            },
    {
        let update = match item {
            Ok(update) => update,
            Err(e) => {
                return Err(LlmError::from(e));
            },
        };
        let ghost before = self.pending();
        if update.choices.len() == 0 {
            proof {
                assert(apply_deltas(before, Seq::empty()) == before);
            }
            return Ok(CompletionChunk {
                text: None,
                reasoning: None,
                tool_calls: Vec::new(),
                finished_reason: None,
            });
        }
        let choice = &update.choices[0];
        proof {
            assert(first_choice(update) == Some(*choice));
        }
        self.apply_all(&choice.delta.tool_calls);
        let text = copy_opt_string(&choice.delta.content);
        let reasoning = copy_opt_string(&choice.delta.reasoning_content);
        match &choice.finish_reason {
            None => {
                let chunk = Ok(
                    CompletionChunk { text, reasoning, tool_calls: Vec::new(), finished_reason: None },
                );
                proof {
                    assert(chunk_for_update(before, update, self.pending(), chunk));
                }
                chunk
            },
            Some(reason) => {
                let finished_reason = Some(to_domain_finish_reason(reason));
                let ghost mid = self.pending();
                let released = self.release_all();
                let ghost r = calls_view(released);
                let ghost ks = choose|ks: Seq<usize>|
                    #![trigger sorted_keys(mid, ks)]
                    sorted_keys(mid, ks) && finished_in_order(mid, ks, r);
                proof {
                    assert(update_deltas(update) == choice.delta.tool_calls@);
                    assert(mid == apply_deltas(before, update_deltas(update)));
                    assert(sorted_keys(apply_deltas(before, update_deltas(update)), ks));
                }
                let chunk = match released {
                    Ok(tool_calls) => {
                        proof {
                            assert(finished_in_order(mid, ks, Ok(tool_calls@)));
                        }
                        Ok(CompletionChunk { text, reasoning, tool_calls, finished_reason })
                    },
                    Err(e) => {
                        proof {
                            assert(finished_in_order(mid, ks, Err(e)));
                        }
                        Err(e)
                    },
                };
                proof {
                    assert(chunk_for_update(before, update, self.pending(), chunk));
                }
                chunk
            },
        }
    }
}

/// The arguments text held for the call at `index`, empty when there is no such call.
pub open spec fn held_arguments(pending: Map<usize, PendingView>, index: usize) -> Seq<char> {
    if pending.contains_key(index) {
        pending[index].arguments
    } else {
        Seq::empty()
    }
}

/// The argument pieces that `deltas` carry for the call at `index`, joined in order.
pub open spec fn pieces_for(deltas: Seq<ChatCompletionsToolCallDelta>, index: usize) -> Seq<char>
    decreases deltas.len(),
{
    if deltas.len() == 0 {
        Seq::empty()
    } else {
        let d = deltas[0];
        let head = if d.index == index {
            match d.function.arguments {
                Some(a) => a@,
                None => Seq::empty(),
            }
        } else {
            Seq::empty()
        };
        head + pieces_for(deltas.drop_first(), index)
    }
}

/// A streamed tool call's arguments are its pieces joined in arrival order:
/// applying fragments appends, to what the call at each index held, exactly the
/// pieces addressed to that index, whatever pieces for other calls come between.
pub proof fn law_argument_pieces_join_in_order(
    pending: Map<usize, PendingView>,
    deltas: Seq<ChatCompletionsToolCallDelta>,
    index: usize,
)
    ensures
        held_arguments(apply_deltas(pending, deltas), index) == held_arguments(pending, index)
            + pieces_for(deltas, index),
    decreases deltas.len(),
{
    if deltas.len() == 0 {
        assert(held_arguments(pending, index) + Seq::<char>::empty() =~= held_arguments(
            pending,
            index,
        ));
    } else {
        let d = deltas[0];
        let current = if pending.contains_key(d.index) {
            pending[d.index]
        } else {
            empty_pending()
        };
        let next = pending.insert(d.index, apply_delta(current, d));
        law_argument_pieces_join_in_order(next, deltas.drop_first(), index);
        let head = if d.index == index {
            match d.function.arguments {
                Some(a) => a@,
                None => Seq::<char>::empty(),
            }
        } else {
            Seq::<char>::empty()
        };
        assert(held_arguments(next, index) =~= held_arguments(pending, index) + head);
        assert(held_arguments(pending, index) + head + pieces_for(deltas.drop_first(), index)
            =~= held_arguments(pending, index) + (head + pieces_for(deltas.drop_first(), index)));
    }
}

/// The fragments of `deltas` addressed to the call at `index`, in order.
pub open spec fn fragments_for(deltas: Seq<ChatCompletionsToolCallDelta>, index: usize) -> Seq<
    ChatCompletionsToolCallDelta,
>
    decreases deltas.len(),
{
    if deltas.len() == 0 {
        Seq::empty()
    } else {
        (if deltas[0].index == index {
            seq![deltas[0]]
        } else {
            Seq::empty()
        }) + fragments_for(deltas.drop_first(), index)
    }
}

/// What `pending` holds for the call at `index`, a fresh call when it holds none.
pub open spec fn held_call(pending: Map<usize, PendingView>, index: usize) -> PendingView {
    if pending.contains_key(index) {
        pending[index]
    } else {
        empty_pending()
    }
}

/// Applying a first fragment, then the rest.
proof fn lemma_apply_delta_seq_cons(
    pending: PendingView,
    delta: ChatCompletionsToolCallDelta,
    rest: Seq<ChatCompletionsToolCallDelta>,
)
    ensures
        apply_delta_seq(pending, seq![delta] + rest) == apply_delta_seq(apply_delta(pending, delta), rest),
{
    let all = seq![delta] + rest;
    assert(all[0] == delta);
    assert(all.drop_first() =~= rest);
}

/// Applying fragments to the pending calls treats each index on its own: the
/// call at `index` is there exactly when it was before or a fragment addresses
/// it, and it is what it held with the fragments addressed to it applied in order.
proof fn lemma_apply_deltas_per_index(
    pending: Map<usize, PendingView>,
    deltas: Seq<ChatCompletionsToolCallDelta>,
    index: usize,
)
    ensures
        apply_deltas(pending, deltas).contains_key(index) <==> (pending.contains_key(index)
            || fragments_for(deltas, index).len() > 0),
        held_call(apply_deltas(pending, deltas), index) == apply_delta_seq(
            held_call(pending, index),
            fragments_for(deltas, index),
        ),
    decreases deltas.len(),
{
    if deltas.len() > 0 {
        let d = deltas[0];
        let next = pending.insert(d.index, apply_delta(held_call(pending, d.index), d));
        lemma_apply_deltas_per_index(next, deltas.drop_first(), index);
        let rest = fragments_for(deltas.drop_first(), index);
        if d.index == index {
            lemma_apply_delta_seq_cons(held_call(pending, index), d, rest);
        } else {
            assert(fragments_for(deltas, index) =~= rest);
        }
    }
}

/// Applying `a` and then `b` is applying `a + b`.
proof fn lemma_apply_deltas_append(
    pending: Map<usize, PendingView>,
    a: Seq<ChatCompletionsToolCallDelta>,
    b: Seq<ChatCompletionsToolCallDelta>,
)
    ensures
        apply_deltas(apply_deltas(pending, a), b) == apply_deltas(pending, a + b),
    decreases a.len(),
{
    if a.len() == 0 {
        assert(a + b =~= b);
    } else {
        let d = a[0];
        let next = pending.insert(d.index, apply_delta(held_call(pending, d.index), d));
        lemma_apply_deltas_append(next, a.drop_first(), b);
        assert((a + b)[0] == d);
        assert((a + b).drop_first() =~= a.drop_first() + b);
    }
}

/// The tool call fragments of every update, in order.
pub open spec fn all_update_deltas(updates: Seq<ChatCompletionsStreamResponse>) -> Seq<
    ChatCompletionsToolCallDelta,
>
    decreases updates.len(),
{
    if updates.len() == 0 {
        Seq::empty()
    } else {
        all_update_deltas(updates.drop_last()) + update_deltas(updates.last())
    }
}

/// A run of the assembler from a fresh start: the i-th update moves the pending
/// calls from `pendings[i]` to `pendings[i + 1]` and gives `chunks[i]`.
pub open spec fn assembler_run(
    pendings: Seq<Map<usize, PendingView>>,
    updates: Seq<ChatCompletionsStreamResponse>,
    chunks: Seq<Result<CompletionChunk, LlmError>>,
) -> bool {
    &&& pendings.len() == updates.len() + 1
    &&& chunks.len() == updates.len()
    &&& pendings[0] == Map::<usize, PendingView>::empty()
    &&& forall|i: int|
        #![trigger updates[i]]
        0 <= i < updates.len() ==> chunk_for_update(pendings[i], updates[i], pendings[i + 1], chunks[i])
}

/// `calls` are the tool calls that `deltas` assemble, released together: one
/// for each index some fragment addresses, in increasing index order (so none
/// twice), each with the identifier and the name that the last fragment for its
/// index carrying one carried, and the argument pieces for its index joined in
/// arrival order.
pub open spec fn released_calls(
    deltas: Seq<ChatCompletionsToolCallDelta>,
    keys: Seq<usize>,
    calls: Seq<ToolCall>,
) -> bool {
    &&& forall|i: int, j: int| 0 <= i < j < keys.len() ==> keys[i] < keys[j]
    &&& forall|k: usize| keys.contains(k) <==> fragments_for(deltas, k).len() > 0
    &&& calls.len() == keys.len()
    &&& forall|i: int|
        0 <= i < keys.len() ==> {
            let fragments = fragments_for(deltas, keys[i]);
            &&& latest_id(fragments, None) == Some((#[trigger] calls[i]).id)
            &&& latest_name(fragments, None) == Some(calls[i].name)
            &&& calls[i].arguments@ == joined_arguments(fragments)
        }
}

/// Before the update at `i`, the pending calls are the fragments of the
/// earlier updates applied in order.
proof fn lemma_run_prefix(
    pendings: Seq<Map<usize, PendingView>>,
    updates: Seq<ChatCompletionsStreamResponse>,
    chunks: Seq<Result<CompletionChunk, LlmError>>,
    i: int,
)
    requires
        assembler_run(pendings, updates, chunks),
        0 <= i < updates.len(),
        forall|j: int| 0 <= j < i ==> update_finish(#[trigger] updates[j]) is None,
    ensures
        pendings[i] == apply_deltas(Map::<usize, PendingView>::empty(), all_update_deltas(updates.take(i))),
    decreases i,
{
    let empty = Map::<usize, PendingView>::empty();
    if i == 0 {
        assert(updates.take(0) =~= Seq::<ChatCompletionsStreamResponse>::empty());
    } else {
        lemma_run_prefix(pendings, updates, chunks, i - 1);
        assert(chunk_for_update(pendings[i - 1], updates[i - 1], pendings[i], chunks[i - 1]));
        assert(update_finish(updates[i - 1]) is None);
        let before = all_update_deltas(updates.take(i - 1));
        lemma_apply_deltas_append(empty, before, update_deltas(updates[i - 1]));
        assert(updates.take(i).drop_last() =~= updates.take(i - 1));
        assert(updates.take(i).last() == updates[i - 1]);
    }
}

/// A whole stream through the assembler: from a fresh start, updates that do
/// not finish give chunks without tool calls and hold their fragments; the
/// update that finishes releases, when it succeeds, exactly the calls that all
/// the fragments of the run assemble, in index order, and nothing stays pending.
pub proof fn law_stream_releases_assembled_calls(
    pendings: Seq<Map<usize, PendingView>>,
    updates: Seq<ChatCompletionsStreamResponse>,
    chunks: Seq<Result<CompletionChunk, LlmError>>,
)
    requires
        assembler_run(pendings, updates, chunks),
        updates.len() > 0,
        forall|i: int| 0 <= i < updates.len() - 1 ==> update_finish(#[trigger] updates[i]) is None,
        update_finish(updates.last()) is Some,
    ensures
        forall|i: int|
            0 <= i < updates.len() - 1 ==> (#[trigger] chunks[i] matches Ok(c) && c.tool_calls@.len()
                == 0),
        pendings.last() == Map::<usize, PendingView>::empty(),
        chunks.last() matches Ok(out) ==> exists|keys: Seq<usize>|
            released_calls(all_update_deltas(updates), keys, out.tool_calls@),
{
    let n = updates.len() as int;
    let empty = Map::<usize, PendingView>::empty();
    assert forall|i: int| 0 <= i < n - 1 implies (#[trigger] chunks[i] matches Ok(c)
        && c.tool_calls@.len() == 0) by {
        assert(chunk_for_update(pendings[i], updates[i], pendings[i + 1], chunks[i]));
    }
    lemma_run_prefix(pendings, updates, chunks, n - 1);
    let u = updates[n - 1];
    assert(chunk_for_update(pendings[n - 1], u, pendings[n], chunks[n - 1]));
    let all = all_update_deltas(updates);
    assert(updates.drop_last() =~= updates.take(n - 1));
    lemma_apply_deltas_append(empty, all_update_deltas(updates.take(n - 1)), update_deltas(u));
    let updated = apply_deltas(pendings[n - 1], update_deltas(u));
    assert(updated == apply_deltas(empty, all));
    match chunks[n - 1] {
        Ok(out) => {
            let calls = out.tool_calls@;
            let keys = choose|keys: Seq<usize>|
                #![trigger sorted_keys(apply_deltas(pendings[n - 1], update_deltas(u)), keys)]
                sorted_keys(updated, keys) && finished_in_order(updated, keys, Ok(calls));
            lemma_release_from_fresh(all, keys, calls);
            assert(released_calls(all, keys, calls));
        },
        Err(_) => {},
    }
}

/// Calls released from pending calls that `deltas` built from nothing are the
/// calls those fragments assemble.
proof fn lemma_release_from_fresh(
    deltas: Seq<ChatCompletionsToolCallDelta>,
    keys: Seq<usize>,
    calls: Seq<ToolCall>,
)
    requires
        sorted_keys(apply_deltas(Map::<usize, PendingView>::empty(), deltas), keys),
        finished_in_order(apply_deltas(Map::<usize, PendingView>::empty(), deltas), keys, Ok(calls)),
    ensures
        released_calls(deltas, keys, calls),
{
    let empty = Map::<usize, PendingView>::empty();
    let updated = apply_deltas(empty, deltas);
    assert forall|k: usize| keys.contains(k) <==> fragments_for(deltas, k).len() > 0 by {
        lemma_apply_deltas_per_index(empty, deltas, k);
    }
    assert forall|i: int| 0 <= i < keys.len() implies {
        let fragments = fragments_for(deltas, keys[i]);
        &&& latest_id(fragments, None) == Some((#[trigger] calls[i]).id)
        &&& latest_name(fragments, None) == Some(calls[i].name)
        &&& calls[i].arguments@ == joined_arguments(fragments)
    } by {
        let k = keys[i];
        let fragments = fragments_for(deltas, k);
        assert(keys.contains(k));
        lemma_apply_deltas_per_index(empty, deltas, k);
        law_fragments_accumulate(empty_pending(), fragments);
        assert(Seq::<char>::empty() + joined_arguments(fragments) =~= joined_arguments(fragments));
        assert(pending_complete(updated[keys[i]]) && call_of_pending(updated[keys[i]], calls[i]));
    }
}

/// Where the stretch of updates that the pending calls gather before the update
/// at `i` begins: just after the last earlier update that finished, or at the
/// start of the stream.
pub open spec fn segment_start(updates: Seq<ChatCompletionsStreamResponse>, i: int) -> int
    decreases i,
{
    if i <= 0 {
        0
    } else if update_finish(updates[i - 1]) is Some {
        i
    } else {
        segment_start(updates, i - 1)
    }
}

/// A stretch begins no later than where it is asked for.
proof fn lemma_segment_start_bounds(updates: Seq<ChatCompletionsStreamResponse>, i: int)
    requires
        0 <= i,
    ensures
        0 <= segment_start(updates, i) <= i,
    decreases i,
{
    if i > 0 && update_finish(updates[i - 1]) is None {
        lemma_segment_start_bounds(updates, i - 1);
    }
}

/// A stretch never reaches back across a finish.
proof fn lemma_segment_after_finish(updates: Seq<ChatCompletionsStreamResponse>, f: int, i: int)
    requires
        0 <= f < i,
        update_finish(updates[f]) is Some,
    ensures
        f < segment_start(updates, i),
    decreases i,
{
    if i - 1 > f && update_finish(updates[i - 1]) is None {
        lemma_segment_after_finish(updates, f, i - 1);
    }
}

/// Before the update at `i`, the pending calls are the fragments of the updates
/// since the last finish, applied in order.
proof fn lemma_run_segment(
    pendings: Seq<Map<usize, PendingView>>,
    updates: Seq<ChatCompletionsStreamResponse>,
    chunks: Seq<Result<CompletionChunk, LlmError>>,
    i: int,
)
    requires
        assembler_run(pendings, updates, chunks),
        0 <= i <= updates.len(),
    ensures
        pendings[i] == apply_deltas(
            Map::<usize, PendingView>::empty(),
            all_update_deltas(updates.subrange(segment_start(updates, i), i)),
        ),
    decreases i,
{
    let empty = Map::<usize, PendingView>::empty();
    if i == 0 {
        assert(updates.subrange(0, 0) =~= Seq::<ChatCompletionsStreamResponse>::empty());
    } else {
        assert(chunk_for_update(pendings[i - 1], updates[i - 1], pendings[i], chunks[i - 1]));
        if update_finish(updates[i - 1]) is Some {
            assert(updates.subrange(i, i) =~= Seq::<ChatCompletionsStreamResponse>::empty());
        } else {
            lemma_run_segment(pendings, updates, chunks, i - 1);
            let start = segment_start(updates, i - 1);
            lemma_segment_start_bounds(updates, i - 1);
            let before = all_update_deltas(updates.subrange(start, i - 1));
            lemma_apply_deltas_append(empty, before, update_deltas(updates[i - 1]));
            assert(updates.subrange(start, i).drop_last() =~= updates.subrange(start, i - 1));
            assert(updates.subrange(start, i).last() == updates[i - 1]);
        }
    }
}

/// A whole stream through the assembler, with any number of finishes: an update
/// that does not finish gives a chunk without tool calls; an update that
/// finishes leaves nothing pending and, when it succeeds, releases exactly the
/// calls that the fragments of its stretch assemble (the updates after the
/// previous finish, up to and including itself), in index order; and the
/// stretches of two finishes never overlap, so no fragment is released twice.
pub proof fn law_each_finish_releases_its_stretch(
    pendings: Seq<Map<usize, PendingView>>,
    updates: Seq<ChatCompletionsStreamResponse>,
    chunks: Seq<Result<CompletionChunk, LlmError>>,
)
    requires
        assembler_run(pendings, updates, chunks),
    ensures
        forall|i: int|
            #![trigger chunks[i]]
            0 <= i < updates.len() && update_finish(updates[i]) is None ==> (chunks[i] matches Ok(c)
                && c.tool_calls@.len() == 0),
        forall|f: int|
            #![trigger chunks[f]]
            0 <= f < updates.len() && update_finish(updates[f]) is Some ==> {
                &&& pendings[f + 1] == Map::<usize, PendingView>::empty()
                &&& (chunks[f] matches Ok(out) ==> exists|keys: Seq<usize>|
                    #[trigger] released_calls(
                        all_update_deltas(updates.subrange(segment_start(updates, f), f + 1)),
                        keys,
                        out.tool_calls@,
                    ))
            },
        forall|f1: int, f2: int|
            #![trigger chunks[f1], chunks[f2]]
            0 <= f1 < f2 < updates.len() && update_finish(updates[f1]) is Some ==> f1
                < segment_start(updates, f2),
{
    let empty = Map::<usize, PendingView>::empty();
    assert forall|i: int|
        #![trigger chunks[i]]
        0 <= i < updates.len() && update_finish(updates[i]) is None implies (chunks[i] matches Ok(c)
            && c.tool_calls@.len() == 0) by {
        assert(chunk_for_update(pendings[i], updates[i], pendings[i + 1], chunks[i]));
    }
    assert forall|f: int|
        #![trigger chunks[f]]
        0 <= f < updates.len() && update_finish(updates[f]) is Some implies {
            &&& pendings[f + 1] == Map::<usize, PendingView>::empty()
            &&& (chunks[f] matches Ok(out) ==> exists|keys: Seq<usize>|
                #[trigger] released_calls(
                    all_update_deltas(updates.subrange(segment_start(updates, f), f + 1)),
                    keys,
                    out.tool_calls@,
                ))
        } by {
        let u = updates[f];
        assert(chunk_for_update(pendings[f], u, pendings[f + 1], chunks[f]));
        lemma_run_segment(pendings, updates, chunks, f);
        let start = segment_start(updates, f);
        lemma_segment_start_bounds(updates, f);
        let stretch = updates.subrange(start, f + 1);
        let all = all_update_deltas(stretch);
        assert(stretch.drop_last() =~= updates.subrange(start, f));
        assert(stretch.last() == u);
        lemma_apply_deltas_append(empty, all_update_deltas(updates.subrange(start, f)), update_deltas(u));
        let updated = apply_deltas(pendings[f], update_deltas(u));
        assert(updated == apply_deltas(empty, all));
        match chunks[f] {
            Ok(out) => {
                let calls = out.tool_calls@;
                let keys = choose|keys: Seq<usize>|
                    #![trigger sorted_keys(apply_deltas(pendings[f], update_deltas(u)), keys)]
                    sorted_keys(updated, keys) && finished_in_order(updated, keys, Ok(calls));
                lemma_release_from_fresh(all, keys, calls);
            },
            Err(_) => {},
        }
    }
    assert forall|f1: int, f2: int|
        #![trigger chunks[f1], chunks[f2]]
        0 <= f1 < f2 < updates.len() && update_finish(updates[f1]) is Some implies f1
            < segment_start(updates, f2) by {
        lemma_segment_after_finish(updates, f1, f2);
    }
}

/// Every provider finish reason becomes the shared reason of the same name:
/// `stop` a stop, `length` a length limit, `tool_calls` a tool call request and
/// `content_filter` a content filter; so no two reasons are confused.
pub proof fn law_finish_reasons_keep_their_names(reason: ChoicesFinishReason)
    ensures
        reason is Stop <==> domain_finish_reason(reason) is Stop,
        reason is Length <==> domain_finish_reason(reason) is Length,
        reason is ToolCalls <==> domain_finish_reason(reason) is ToolCalls,
        reason is ContentFilter <==> domain_finish_reason(reason) is ContentFilter,
{
}

/// A chunk reports why generation stopped under the same name the provider
/// used, and reports no reason for an update that does not finish.
pub proof fn law_chunk_keeps_the_finish_reason(
    before: Map<usize, PendingView>,
    update: ChatCompletionsStreamResponse,
    after: Map<usize, PendingView>,
    chunk: Result<CompletionChunk, LlmError>,
)
    requires
        chunk_for_update(before, update, after, chunk),
    ensures
        chunk matches Ok(out) ==> {
            &&& update_finish(update) is None <==> out.finished_reason is None
            &&& update_finish(update) == Some(ChoicesFinishReason::Stop) ==> out.finished_reason
                == Some(FinishReason::Stop)
            &&& update_finish(update) == Some(ChoicesFinishReason::Length) ==> out.finished_reason
                == Some(FinishReason::Length)
            &&& update_finish(update) == Some(ChoicesFinishReason::ToolCalls)
                ==> out.finished_reason == Some(FinishReason::ToolCalls)
            &&& update_finish(update) == Some(ChoicesFinishReason::ContentFilter)
                ==> out.finished_reason == Some(FinishReason::ContentFilter)
        },
{
}

} // verus!
