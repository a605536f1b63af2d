//! Reassembly of streamed tool-call fragments.
//!
//! A token-streaming provider delivers tool invocations as interleaved
//! fragments keyed by a slot index. Fragments for one slot are concatenated
//! in arrival order to rebuild the argument payload; the first fragment of a
//! slot must carry the call's id, name, and an initial argument piece, or it
//! is discarded as malformed.

use crate::message::ToolCall;
use crate::message::ToolCallV;
use vstd::pervasive::VecAdditionalExecFns;
use vstd::prelude::*;

verus! {

/// One streamed fragment of a tool call.
#[derive(Debug)]
pub struct ToolCallChunk {
    /// The slot this fragment belongs to.
    pub index: u32,
    /// The call's identifier; present on the first fragment of a slot.
    pub id: Option<String>,
    /// The tool's name; present on the first fragment of a slot.
    pub name: Option<String>,
    /// A piece of the argument payload.
    pub arguments: Option<String>,
}

/// The mathematical content of a [`ToolCallChunk`].
pub struct ToolCallChunkV {
    /// The slot this fragment belongs to.
    pub index: u32,
    /// The call's identifier, when present.
    pub id: Option<Seq<char>>,
    /// The tool's name, when present.
    pub name: Option<Seq<char>>,
    /// A piece of the argument payload, when present.
    pub arguments: Option<Seq<char>>,
}

/// The view of an optional piece of text.
pub open spec fn opt_text(o: Option<String>) -> Option<Seq<char>> {
    match o {
        Some(s) => Some(s@),
        None => None,
    }
}

impl View for ToolCallChunk {
    type V = ToolCallChunkV;

    open spec fn view(&self) -> ToolCallChunkV {
        ToolCallChunkV {
            index: self.index,
            id: opt_text(self.id),
            name: opt_text(self.name),
            arguments: opt_text(self.arguments),
        }
    }
}

impl DeepView for ToolCallChunk {
    type V = ToolCallChunkV;

    open spec fn deep_view(&self) -> ToolCallChunkV {
        self.view()
    }
}

impl Clone for ToolCallChunk {
    /// Cloning keeps the fragment's contents.
    fn clone(&self) -> (r: Self)
        ensures
            r@ == self@,
    {
        ToolCallChunk {
            index: self.index,
            id: self.id.clone(),
            name: self.name.clone(),
            arguments: self.arguments.clone(),
        }
    }
}

/// The text of an optional fragment piece; absent pieces contribute nothing.
pub open spec fn opt_piece(o: Option<Seq<char>>) -> Seq<char> {
    match o {
        Some(s) => s,
        None => Seq::empty(),
    }
}

/// Whether a fragment can open a slot by itself: it must carry the id, the
/// name, and an initial argument piece.
pub open spec fn chunk_complete(c: ToolCallChunkV) -> bool {
    c.id is Some && c.name is Some && c.arguments is Some
}

/// The call opened by a self-sufficient first fragment.
pub open spec fn opened_call(c: ToolCallChunkV) -> ToolCallV {
    ToolCallV { id: c.id->Some_0, name: c.name->Some_0, arguments: c.arguments->Some_0 }
}

/// An in-progress call extended by a later fragment for its slot: the
/// fragment's argument piece is appended; id and name are already fixed.
pub open spec fn extended_call(slot: ToolCallV, c: ToolCallChunkV) -> ToolCallV {
    ToolCallV { id: slot.id, name: slot.name, arguments: slot.arguments + opt_piece(c.arguments) }
}

/// The position of the slot with the given index, or `-1` when none exists.
pub open spec fn find_slot(s: Seq<(u32, ToolCallV)>, index: u32) -> int
    decreases s.len(),
{
    if s.len() == 0 {
        -1
    } else if s[0].0 == index {
        0
    } else {
        let r = find_slot(s.drop_first(), index);
        if r < 0 {
            -1
        } else {
            1 + r
        }
    }
}

/// `find_slot` finds the first slot with the index, and fails exactly when
/// no slot has it.
pub proof fn lemma_find_slot(s: Seq<(u32, ToolCallV)>, index: u32)
    ensures
        find_slot(s, index) == -1 ==> forall|j: int| 0 <= j < s.len() ==> (#[trigger] s[j]).0
            != index,
        find_slot(s, index) >= 0 ==> {
            &&& find_slot(s, index) < s.len()
            &&& s[find_slot(s, index)].0 == index
            &&& forall|j: int| 0 <= j < find_slot(s, index) ==> (#[trigger] s[j]).0 != index
        },
    decreases s.len(),
{
    if s.len() == 0 {
    } else if s[0].0 == index {
    } else {
        lemma_find_slot(s.drop_first(), index);
        let r = find_slot(s.drop_first(), index);
        if r < 0 {
            assert forall|j: int| 0 <= j < s.len() implies (#[trigger] s[j]).0 != index by {
                if j > 0 {
                    assert(s.drop_first()[j - 1].0 != index);
                }
            }
        } else {
            assert forall|j: int| 0 <= j < find_slot(s, index) implies (#[trigger] s[j]).0
                != index by {
                if j > 0 {
                    assert(s.drop_first()[j - 1].0 != index);
                }
            }
        }
    }
}

/// What one fragment does to the slot table: extend its slot, open a new
/// slot when it is self-sufficient, or be discarded.
pub open spec fn merge_chunk_spec(s: Seq<(u32, ToolCallV)>, c: ToolCallChunkV) -> Seq<
    (u32, ToolCallV),
> {
    let k = find_slot(s, c.index);
    if k >= 0 {
        s.update(k, (c.index, extended_call(s[k].1, c)))
    } else if chunk_complete(c) {
        s.push((c.index, opened_call(c)))
    } else {
        s
    }
}

/// The slot table after a batch of fragments, merged in arrival order.
pub open spec fn merge_all_spec(s: Seq<(u32, ToolCallV)>, cs: Seq<ToolCallChunkV>) -> Seq<
    (u32, ToolCallV),
>
    decreases cs.len(),
{
    if cs.len() == 0 {
        s
    } else {
        merge_all_spec(merge_chunk_spec(s, cs.first()), cs.drop_first())
    }
}

/// All slot indices in the table are distinct.
pub open spec fn distinct_slots(s: Seq<(u32, ToolCallV)>) -> bool {
    forall|j: int, k: int|
        0 <= j < k < s.len() ==> (#[trigger] s[j]).0 != (#[trigger] s[k]).0
}

/// The finished calls, one per slot, in the order the slots were opened.
pub open spec fn calls_of(s: Seq<(u32, ToolCallV)>) -> Seq<ToolCallV> {
    s.map_values(|p: (u32, ToolCallV)| p.1)
}

/// Merges an ordered stream of tool-call fragments into complete calls,
/// keyed by slot index.
#[derive(Debug)]
pub struct ToolCallStreamManager {
    slots: Vec<(u32, ToolCall)>,
}

impl ToolCallStreamManager {
    /// The slot table: each open slot's index with its call so far.
    pub closed spec fn slots(&self) -> Seq<(u32, ToolCallV)> {
        self.slots.deep_view()
    }

    /// Creates an empty reassembler.
    pub fn new() -> (r: ToolCallStreamManager)
        ensures
            r.slots() == Seq::<(u32, ToolCallV)>::empty(),
    {
        let r = ToolCallStreamManager { slots: Vec::new() };
        proof {
            assert(r.slots() =~= Seq::<(u32, ToolCallV)>::empty());
        }
        r
    }

    /// Merges one fragment into the slot table. A fragment for a known slot
    /// appends its argument piece; a self-sufficient fragment opens a new
    /// slot; anything else is discarded as malformed.
    pub fn merge_chunk(&mut self, chunk: ToolCallChunk)
        ensures
            final(self).slots() == merge_chunk_spec(old(self).slots(), chunk@),
            distinct_slots(old(self).slots()) ==> distinct_slots(final(self).slots()),
    {
        let ghost pre = self.slots();
        let ghost cv = chunk@;
        proof {
            lemma_find_slot(pre, cv.index);
        }
        let n = self.slots.len();
        let mut k: usize = 0;
        loop
            invariant
                0 <= k <= n,
                n == self.slots@.len(),
                pre == self.slots(),
                forall|j: int| 0 <= j < k ==> (#[trigger] pre[j]).0 != cv.index,
                chunk.index == cv.index,
            ensures
                0 <= k <= n,
                pre == self.slots(),
                forall|j: int| 0 <= j < k ==> (#[trigger] pre[j]).0 != cv.index,
                k < n ==> pre[k as int].0 == cv.index,
            decreases n - k,
        {
            if k >= n {
                break ;
            }
            if self.slots[k].0 == chunk.index {
                proof {
                    assert(pre[k as int].0 == self.slots@[k as int].0);
                }
                break ;
            }
            proof {
                assert(pre[k as int].0 == self.slots@[k as int].0);
            }
            k = k + 1;
        }
        if k < n {
            proof {
                // The scan found the first slot with this index, which is
                // exactly what `find_slot` denotes.
                assert(find_slot(pre, cv.index) == k) by {
                    if find_slot(pre, cv.index) < 0 {
                        assert(pre[k as int].0 != cv.index);
                    } else {
                        if find_slot(pre, cv.index) < k {
                            assert(pre[find_slot(pre, cv.index)].0 != cv.index);
                        }
                        if find_slot(pre, cv.index) > k {
                            assert(pre[k as int].0 != cv.index);
                        }
                    }
                }
            }
            let id = self.slots[k].1.id.clone();
            let name = self.slots[k].1.name.clone();
            let mut arguments = self.slots[k].1.arguments.clone();
            match &chunk.arguments {
                Some(a) => {
                    vstd::string::StringExecFns::append(&mut arguments, a.as_str());
                },
                None => (),
            }
            let index = self.slots[k].0;
            self.slots.set(k, (index, ToolCall { id, name, arguments }));
            proof {
                assert forall|j: int| 0 <= j < pre.len() && j != k implies #[trigger] self.slots()[j]
                    == pre[j] by {
                    assert(self.slots()[j] == self.slots@[j].deep_view());
                }
                assert(self.slots()[k as int] == self.slots@[k as int].deep_view());
                assert(self.slots()[k as int] == (cv.index, extended_call(pre[k as int].1, cv)));
                assert(self.slots() =~= merge_chunk_spec(pre, cv));
            }
        } else {
            proof {
                assert(find_slot(pre, cv.index) == -1) by {
                    if find_slot(pre, cv.index) >= 0 {
                        assert(pre[find_slot(pre, cv.index)].0 != cv.index);
                    }
                }
            }
            match (chunk.id, chunk.name, chunk.arguments) {
                (Some(id), Some(name), Some(arguments)) => {
                    let ghost before = self.slots();
                    let index = chunk.index;
                    self.slots.push((index, ToolCall { id, name, arguments }));
                    proof {
                        assert forall|j: int| 0 <= j < pre.len() implies #[trigger] self.slots()[j]
                            == pre[j] by {
                            assert(self.slots()[j] == self.slots@[j].deep_view());
                        }
                        assert(self.slots()[pre.len() as int] == (cv.index, opened_call(cv)));
                        assert(self.slots() =~= merge_chunk_spec(pre, cv));
                    }
                },
                _ => {
                    // Defensive case: the first fragment of a slot lacked its
                    // id, name, or argument piece, so it is dropped.
                    proof {
                        assert(!chunk_complete(cv));
                        assert(self.slots() =~= merge_chunk_spec(pre, cv));
                    }
                },
            }
        }
        proof {
            if distinct_slots(pre) {
                assert forall|j: int, l: int|
                    0 <= j < l < self.slots().len() implies (#[trigger] self.slots()[j]).0 != (
                #[trigger] self.slots()[l]).0 by {
                    let now = self.slots();
                    if now.len() > pre.len() {
                        // A slot was opened: its index was absent before.
                        if l == pre.len() {
                            assert(pre[j].0 != cv.index);
                        }
                    }
                }
            }
        }
    }

    /// Merges a batch of fragments in order.
    pub fn merge_chunks(&mut self, chunks: Vec<ToolCallChunk>)
        ensures
            final(self).slots() == merge_all_spec(old(self).slots(), chunks.deep_view()),
            distinct_slots(old(self).slots()) ==> distinct_slots(final(self).slots()),
    {
        let n = chunks.len();
        let mut i: usize = 0;
        proof {
            assert(chunks.deep_view().take(0) =~= Seq::<ToolCallChunkV>::empty());
        }
        while i < n
            invariant
                0 <= i <= n,
                n == chunks@.len(),
                self.slots() == merge_all_spec(old(self).slots(), chunks.deep_view().take(i as int)),
                distinct_slots(old(self).slots()) ==> distinct_slots(self.slots()),
            decreases n - i,
        {
            let chunk = chunks[i].clone();
            proof {
                assert(chunk@ == chunks.deep_view()[i as int]);
            }
            self.merge_chunk(chunk);
            proof {
                let dv = chunks.deep_view();
                lemma_merge_all_snoc(old(self).slots(), dv.take(i as int), dv[i as int]);
                assert(dv.take(i as int).push(dv[i as int]) =~= dv.take(i + 1));
            }
            i = i + 1;
        }
        proof {
            assert(chunks.deep_view().take(n as int) =~= chunks.deep_view());
        }
    }

    /// The calls assembled so far, without draining the table: what a
    /// finished stream would yield at this point.
    pub fn calls_so_far(&self) -> (r: Vec<ToolCall>)
        ensures
            r.deep_view() == calls_of(self.slots()),
    {
        let mut result: Vec<ToolCall> = Vec::new();
        let n = self.slots.len();
        let mut i: usize = 0;
        while i < n
            invariant
                0 <= i <= n,
                n == self.slots@.len(),
                result@.len() == i,
                result.deep_view() == calls_of(self.slots()).take(i as int),
            decreases n - i,
        {
            let ghost pre = result.deep_view();
            let item = self.slots[i].1.clone();
            proof {
                assert(item.deep_view() == self.slots()[i as int].1);
                assert(calls_of(self.slots())[i as int] == self.slots()[i as int].1);
            }
            result.push(item);
            proof {
                assert forall|j: int| 0 <= j < pre.len() implies #[trigger] result.deep_view()[j]
                    == pre[j] by {
                    assert(result.deep_view()[j] == result@[j].deep_view());
                }
                assert(result.deep_view() =~= calls_of(self.slots()).take(i + 1));
            }
            i = i + 1;
        }
        proof {
            assert(calls_of(self.slots()).take(n as int) =~= calls_of(self.slots()));
        }
        result
    }

    /// Drains the table into the finished calls, leaving the reassembler
    /// empty for the next stream.
    pub fn drain(&mut self) -> (r: Vec<ToolCall>)
        ensures
            r.deep_view() == calls_of(old(self).slots()),
            final(self).slots() == Seq::<(u32, ToolCallV)>::empty(),
    {
        let mut slots: Vec<(u32, ToolCall)> = Vec::new();
        core::mem::swap(&mut self.slots, &mut slots);
        proof {
            assert(self.slots() =~= Seq::<(u32, ToolCallV)>::empty());
        }
        let taken = ToolCallStreamManager { slots };
        taken.get_tool_calls()
    }

    /// Drains the table into the finished calls. The caller must not assume
    /// any particular order.
    pub fn get_tool_calls(self) -> (r: Vec<ToolCall>)
        ensures
            r.deep_view() == calls_of(self.slots()),
    {
        let mut result: Vec<ToolCall> = Vec::new();
        let n = self.slots.len();
        let mut i: usize = 0;
        while i < n
            invariant
                0 <= i <= n,
                n == self.slots@.len(),
                result@.len() == i,
                result.deep_view() == calls_of(self.slots()).take(i as int),
            decreases n - i,
        {
            let ghost pre = result.deep_view();
            let item = self.slots[i].1.clone();
            proof {
                assert(item.deep_view() == self.slots()[i as int].1);
                assert(calls_of(self.slots())[i as int] == self.slots()[i as int].1);
            }
            result.push(item);
            proof {
                assert forall|j: int| 0 <= j < pre.len() implies #[trigger] result.deep_view()[j]
                    == pre[j] by {
                    assert(result.deep_view()[j] == result@[j].deep_view());
                }
                assert(result.deep_view() =~= calls_of(self.slots()).take(i + 1));
            }
            i = i + 1;
        }
        proof {
            assert(calls_of(self.slots()).take(n as int) =~= calls_of(self.slots()));
        }
        result
    }
}

proof fn lemma_merge_all_snoc(s: Seq<(u32, ToolCallV)>, cs: Seq<ToolCallChunkV>, c: ToolCallChunkV)
    ensures
        merge_all_spec(s, cs.push(c)) == merge_chunk_spec(merge_all_spec(s, cs), c),
    decreases cs.len(),
{
    let whole = cs.push(c);
    assert(whole.len() > 0);
    assert(merge_all_spec(s, whole) == merge_all_spec(
        merge_chunk_spec(s, whole.first()),
        whole.drop_first(),
    ));
    if cs.len() == 0 {
        assert(whole.first() == c);
        assert(whole.drop_first() =~= Seq::<ToolCallChunkV>::empty());
        assert(merge_all_spec(merge_chunk_spec(s, c), Seq::<ToolCallChunkV>::empty())
            == merge_chunk_spec(s, c));
        assert(merge_all_spec(s, cs) == s);
    } else {
        assert(whole.first() == cs.first());
        assert(whole.drop_first() =~= cs.drop_first().push(c));
        lemma_merge_all_snoc(merge_chunk_spec(s, cs.first()), cs.drop_first(), c);
        assert(merge_all_spec(s, cs) == merge_all_spec(
            merge_chunk_spec(s, cs.first()),
            cs.drop_first(),
        ));
    }
}

/// Reassembling a single slot delivered as a self-sufficient first fragment
/// followed by two argument-only fragments yields one call whose argument
/// payload is the three pieces concatenated in arrival order.
pub proof fn lemma_single_slot_reassembly(
    index: u32,
    id: Seq<char>,
    name: Seq<char>,
    a1: Seq<char>,
    a2: Seq<char>,
    a3: Seq<char>,
)
    ensures
        ({
            let f1 = ToolCallChunkV { index, id: Some(id), name: Some(name), arguments: Some(a1) };
            let f2 = ToolCallChunkV { index, id: None, name: None, arguments: Some(a2) };
            let f3 = ToolCallChunkV { index, id: None, name: None, arguments: Some(a3) };
            let table = merge_all_spec(Seq::empty(), seq![f1, f2, f3]);
            calls_of(table) == seq![ToolCallV { id, name, arguments: a1 + a2 + a3 }]
        }),
{
    let f1 = ToolCallChunkV { index, id: Some(id), name: Some(name), arguments: Some(a1) };
    let f2 = ToolCallChunkV { index, id: None, name: None, arguments: Some(a2) };
    let f3 = ToolCallChunkV { index, id: None, name: None, arguments: Some(a3) };
    let fs = seq![f1, f2, f3];
    let s0 = Seq::<(u32, ToolCallV)>::empty();
    let s1 = merge_chunk_spec(s0, f1);
    assert(find_slot(s0, index) == -1);
    assert(s1 =~= seq![(index, ToolCallV { id, name, arguments: a1 })]);
    let s2 = merge_chunk_spec(s1, f2);
    assert(find_slot(s1, index) == 0);
    assert(s2 =~= seq![(index, ToolCallV { id, name, arguments: a1 + a2 })]);
    let s3 = merge_chunk_spec(s2, f3);
    assert(find_slot(s2, index) == 0);
    assert(s3 =~= seq![(index, ToolCallV { id, name, arguments: (a1 + a2) + a3 })]);
    let g1 = fs.drop_first();
    let g2 = g1.drop_first();
    let g3 = g2.drop_first();
    assert(fs.first() == f1);
    assert(g1 =~= seq![f2, f3]);
    assert(g2 =~= seq![f3]);
    assert(g3 =~= Seq::<ToolCallChunkV>::empty());
    assert(merge_all_spec(s0, fs) == merge_all_spec(s1, g1));
    assert(g1.first() == f2);
    assert(merge_all_spec(s1, g1) == merge_all_spec(s2, g2));
    assert(g2.first() == f3);
    assert(merge_all_spec(s2, g2) == merge_all_spec(s3, g3));
    assert(merge_all_spec(s3, g3) == s3);
    assert((a1 + a2) + a3 =~= a1 + a2 + a3);
    assert(calls_of(s3) =~= seq![ToolCallV { id, name, arguments: a1 + a2 + a3 }]);
}

} // verus!
