//! The tool calls that a response is assembling, by their index.

use crate::json;
use crate::providers::tool_args;
use crate::providers::types;
use crate::providers::types::{ApiStreamChunk, Chunk};
use crate::text;
use vstd::prelude::*;

verus! {

/// A tool call that is being assembled.
#[derive(Debug)]
pub struct PendingCall {
    pub index: usize,
    pub id: String,
    pub name: String,
    pub arguments: String,
    /// The call was announced to the receiver.
    pub started: bool,
    /// The call was handed out; nothing is added to it any more.
    pub completed: bool,
}

/// The tool calls of a response, in the order of their indices.
#[derive(Debug)]
pub struct CallTable {
    entries: Vec<PendingCall>,
}

/// The mathematical value of a pending call.
pub struct Call {
    pub index: nat,
    pub id: Seq<char>,
    pub name: Seq<char>,
    pub arguments: Seq<char>,
    pub started: bool,
    pub completed: bool,
}

impl View for PendingCall {
    type V = Call;

    open spec fn view(&self) -> Call {
        Call {
            index: self.index as nat,
            id: self.id@,
            name: self.name@,
            arguments: self.arguments@,
            started: self.started,
            completed: self.completed,
        }
    }
}

impl View for CallTable {
    type V = Seq<Call>;

    closed spec fn view(&self) -> Seq<Call> {
        self.entries@.map_values(|e: PendingCall| e@)
    }
}

/// The number of calls with a smaller index, in a table that is in order.
pub open spec fn rank(calls: Seq<Call>, index: nat) -> int
    decreases calls.len(),
{
    if calls.len() == 0 || calls.last().index < index {
        calls.len() as int
    } else {
        rank(calls.drop_last(), index)
    }
}

/// The table has a call with this index.
pub open spec fn known(calls: Seq<Call>, index: nat) -> bool {
    rank(calls, index) < calls.len() && calls[rank(calls, index)].index == index
}

/// The call with this index, empty where the table has none.
pub open spec fn call_at(calls: Seq<Call>, index: nat) -> Call {
    if known(calls, index) {
        calls[rank(calls, index)]
    } else {
        Call {
            index,
            id: Seq::empty(),
            name: Seq::empty(),
            arguments: Seq::empty(),
            started: false,
            completed: false,
        }
    }
}

/// The table with a call put under its index.
pub open spec fn with_call(calls: Seq<Call>, c: Call) -> Seq<Call> {
    let r = rank(calls, c.index);
    if known(calls, c.index) {
        calls.update(r, c)
    } else {
        calls.insert(r, c)
    }
}

/// The table is in order, with one call for each index, and no call exceeds the
/// size limit.
pub open spec fn in_order(calls: Seq<Call>) -> bool {
    &&& forall|i: int, j: int|
        0 <= i < j < calls.len() ==> (#[trigger] calls[i]).index < (#[trigger] calls[j]).index
    &&& forall|i: int|
        0 <= i < calls.len() ==> text::byte_len((#[trigger] calls[i]).arguments)
            <= types::MAX_TOOL_ARGUMENT_SIZE
}

/// The call is complete enough to be made and was not handed out yet.
pub open spec fn ready(c: Call) -> bool {
    !c.completed && c.id.len() > 0 && c.name.len() > 0
}

/// The table after the ready calls were handed out.
pub open spec fn handed_out(calls: Seq<Call>) -> Seq<Call> {
    calls.map_values(
        |c: Call|
            if ready(c) {
                Call { completed: true, ..c }
            } else {
                c
            },
    )
}

/// The chunks of the ready calls, in the order of their indices.
pub open spec fn ready_chunks(calls: Seq<Call>, id: Option<Seq<char>>) -> Seq<Chunk>
    decreases calls.len(),
{
    if calls.len() == 0 {
        Seq::empty()
    } else {
        let rest = ready_chunks(calls.drop_last(), id);
        let c = calls.last();
        if ready(c) {
            rest.push(types::call_chunk(c.id, c.name, tool_args::validated(c.arguments), id))
        } else {
            rest
        }
    }
}

/// A call is handed out once: after the ready calls were handed out, none is ready.
pub proof fn law_calls_are_handed_out_once(calls: Seq<Call>, id: Option<Seq<char>>)
    ensures
        ready_chunks(handed_out(calls), id) == Seq::<Chunk>::empty(),
        handed_out(handed_out(calls)) == handed_out(calls),
    decreases calls.len(),
{
    assert(handed_out(handed_out(calls)) =~= handed_out(calls));
    if calls.len() > 0 {
        law_calls_are_handed_out_once(calls.drop_last(), id);
        assert(handed_out(calls).drop_last() =~= handed_out(calls.drop_last()));
    }
}

/// `rank` splits a table in order into the smaller indices and the rest.
pub proof fn lemma_rank(calls: Seq<Call>, index: nat)
    requires
        in_order(calls),
    ensures
        0 <= rank(calls, index) <= calls.len(),
        forall|i: int| 0 <= i < rank(calls, index) ==> (#[trigger] calls[i]).index < index,
        forall|i: int|
            rank(calls, index) <= i < calls.len() ==> (#[trigger] calls[i]).index >= index,
    decreases calls.len(),
{
    if calls.len() > 0 && calls.last().index >= index {
        let p = calls.drop_last();
        assert(in_order(p)) by {
            assert(forall|i: int| 0 <= i < p.len() ==> p[i] == calls[i]);
        }
        lemma_rank(p, index);
        assert forall|i: int| 0 <= i < rank(calls, index) implies (#[trigger] calls[i]).index
            < index by {
            assert(p[i].index < index);
        }
        assert forall|i: int| rank(calls, index) <= i < calls.len() implies (
        #[trigger] calls[i]).index >= index by {
            if i < p.len() {
                assert(p[i].index >= index);
            }
        }
    } else if calls.len() > 0 {
        assert forall|i: int| 0 <= i < calls.len() implies (#[trigger] calls[i]).index < index by {
            if i < calls.len() - 1 {
                assert(calls[i].index < calls[calls.len() - 1].index);
            }
        }
    }
}

/// Putting a call within the size limit keeps the table in order, and the call is
/// then found under its index; the others are as they were.
pub proof fn law_with_call(calls: Seq<Call>, c: Call)
    requires
        in_order(calls),
        text::byte_len(c.arguments) <= types::MAX_TOOL_ARGUMENT_SIZE,
    ensures
        in_order(with_call(calls, c)),
        call_at(with_call(calls, c), c.index) == c,
        known(with_call(calls, c), c.index),
{
    lemma_rank(calls, c.index);
    let r = rank(calls, c.index);
    let out = with_call(calls, c);
    if known(calls, c.index) {
        assert forall|i: int, j: int| 0 <= i < j < out.len() implies (#[trigger] out[i]).index < (
        #[trigger] out[j]).index by {
            assert(calls[i].index < calls[j].index);
        }
    } else {
        assert forall|i: int, j: int| 0 <= i < j < out.len() implies (#[trigger] out[i]).index < (
        #[trigger] out[j]).index by {
            if i < r && j > r {
                assert(out[i] == calls[i]);
                assert(out[j] == calls[j - 1]);
            } else if j < r {
                assert(out[i] == calls[i]);
                assert(out[j] == calls[j]);
            } else if i > r {
                assert(out[i] == calls[i - 1]);
                assert(out[j] == calls[j - 1]);
            } else if i == r {
                assert(out[j] == calls[j - 1]);
                assert(calls[j - 1].index >= c.index);
                if calls[j - 1].index == c.index {
                    if j - 1 > r {
                        assert(calls[r].index < calls[j - 1].index);
                        assert(calls[r].index >= c.index);
                    }
                }
            } else {
                assert(out[i] == calls[i]);
            }
        }
        assert forall|i: int| 0 <= i < out.len() implies text::byte_len(
            (#[trigger] out[i]).arguments,
        ) <= types::MAX_TOOL_ARGUMENT_SIZE by {
            if i < r {
                assert(out[i] == calls[i]);
            } else if i > r {
                assert(out[i] == calls[i - 1]);
            }
        }
    }
    assert(in_order(out));
    assert(out[r] == c);
    lemma_rank(out, c.index);
    let q = rank(out, c.index);
    if q < r {
        assert(out[q].index >= c.index);
        assert(out[q].index < out[r].index);
    } else if q > r {
        assert(out[r].index < c.index);
    }
}

/// A call of a table in order is found under its index.
pub proof fn law_calls_are_found(calls: Seq<Call>, i: int)
    requires
        in_order(calls),
        0 <= i < calls.len(),
    ensures
        known(calls, calls[i].index),
        call_at(calls, calls[i].index) == calls[i],
{
    lemma_rank(calls, calls[i].index);
    let r = rank(calls, calls[i].index);
    if i < r {
        assert(calls[i].index < calls[i].index);
    } else if r < i {
        assert(calls[r].index >= calls[i].index);
        assert(calls[r].index < calls[i].index);
    }
}

/// Putting a call leaves the calls under all other indices as they were.
pub proof fn law_others_stay(calls: Seq<Call>, c: Call, other: nat)
    requires
        in_order(calls),
        text::byte_len(c.arguments) <= types::MAX_TOOL_ARGUMENT_SIZE,
        other != c.index,
    ensures
        known(with_call(calls, c), other) == known(calls, other),
        call_at(with_call(calls, c), other) == call_at(calls, other),
{
    let out = with_call(calls, c);
    let r = rank(calls, c.index);
    law_with_call(calls, c);
    lemma_rank(calls, c.index);
    lemma_rank(calls, other);
    lemma_rank(out, other);
    if known(calls, other) {
        let i = rank(calls, other);
        let j = if known(calls, c.index) || i < r {
            i
        } else {
            i + 1
        };
        assert(out[j] == calls[i]);
        law_calls_are_found(out, j);
    } else if known(out, other) {
        let j = rank(out, other);
        let i = if known(calls, c.index) || j < r {
            j
        } else {
            j - 1
        };
        assert(j != r);
        assert(out[j] == calls[i]);
        law_calls_are_found(calls, i);
    }
}

/// The call is made of this chunk: its identifier, its name, and its arguments as they
/// were assembled, where they are JSON.
pub open spec fn makes(chunk: Chunk, c: Call, id: Option<Seq<char>>) -> bool {
    chunk matches Chunk::ToolCall {
        call_id,
        function_id,
        name,
        arguments,
        call_signature,
        id: chunk_id,
        signature,
    } && call_id == Some(c.id) && function_id == Some(c.id) && name == Some(c.name)
        && call_signature is None && signature is None && chunk_id == id && arguments is Some && (
    c.arguments.len() > 0 && json::parsed(c.arguments) is Some ==> arguments == Some(c.arguments))
        && (c.arguments.len() == 0 ==> arguments == Some(seq!['{', '}']))
}

/// The number of calls among the first `n` that have an identifier and a name and were not
/// handed out.
pub open spec fn waiting(calls: Seq<Call>, n: int) -> int
    decreases n,
{
    if n <= 0 {
        0
    } else {
        waiting(calls, n - 1) + (if !calls[n - 1].completed && calls[n - 1].id.len() > 0 && calls[n
            - 1].name.len() > 0 {
            1int
        } else {
            0
        })
    }
}

/// Every call that waits is handed out, in the order of the indices and with what was
/// assembled of it, and nothing else is.
pub proof fn law_waiting_calls_are_handed_out(calls: Seq<Call>, id: Option<Seq<char>>)
    ensures
        ready_chunks(calls, id).len() == waiting(calls, calls.len() as int),
        forall|k: int|
            0 <= k < calls.len() && !(#[trigger] calls[k]).completed && calls[k].id.len() > 0
                && calls[k].name.len() > 0 ==> 0 <= waiting(calls, k) < ready_chunks(calls, id).len()
                && makes(ready_chunks(calls, id)[waiting(calls, k)], calls[k], id),
        forall|k: int|
            0 <= k < calls.len() ==> (#[trigger] handed_out(calls)[k]) == (Call {
                completed: calls[k].completed || (calls[k].id.len() > 0 && calls[k].name.len() > 0),
                ..calls[k]
            }),
        handed_out(calls).len() == calls.len(),
    decreases calls.len(),
{
    reveal_strlit("{}");
    assert("{}"@ =~= seq!['{', '}']);
    if calls.len() > 0 {
        let p = calls.drop_last();
        law_waiting_calls_are_handed_out(p, id);
        lemma_waiting(calls, p.len() as int);
        let all = ready_chunks(calls, id);
        assert forall|k: int|
            0 <= k < calls.len() && !(#[trigger] calls[k]).completed && calls[k].id.len() > 0
                && calls[k].name.len() > 0 implies 0 <= waiting(calls, k) < all.len() && makes(
            all[waiting(calls, k)],
            calls[k],
            id,
        ) by {
            lemma_waiting(calls, k);
            if k < p.len() {
                assert(p[k] == calls[k]);
                assert(all[waiting(calls, k)] == ready_chunks(p, id)[waiting(p, k)]);
            }
        }
    }
}

proof fn lemma_waiting(calls: Seq<Call>, n: int)
    requires
        0 <= n <= calls.len() - 1,
    ensures
        waiting(calls, n) == waiting(calls.drop_last(), n),
        0 <= waiting(calls, n),
    decreases n,
{
    if n > 0 {
        lemma_waiting(calls, n - 1);
    }
}

/// Handing out keeps the table in order.
pub proof fn law_handed_out_keeps_order(calls: Seq<Call>)
    requires
        in_order(calls),
    ensures
        in_order(handed_out(calls)),
{
    let out = handed_out(calls);
    assert forall|i: int, j: int| 0 <= i < j < out.len() implies (#[trigger] out[i]).index < (
    #[trigger] out[j]).index by {
        assert(calls[i].index < calls[j].index);
    }
    assert forall|i: int| 0 <= i < out.len() implies text::byte_len((#[trigger] out[i]).arguments)
        <= types::MAX_TOOL_ARGUMENT_SIZE by {
        assert(calls[i].arguments == out[i].arguments);
    }
}

impl CallTable {
    /// A table without calls.
    pub fn new() -> (r: CallTable)
        ensures
            r@ == Seq::<Call>::empty(),
            in_order(r@),
    {
        let r = CallTable { entries: Vec::new() };
        assert(r@ =~= Seq::<Call>::empty());
        r
    }

    /// The number of calls with a smaller index.
    fn rank_of(&self, index: usize) -> (n: usize)
        ensures
            n == rank(self@, index as nat),
            n <= self.entries@.len(),
    {
        let mut n: usize = self.entries.len();
        assert(self@.take(n as int) =~= self@);
        while n > 0 && self.entries[n - 1].index >= index
            invariant
                n <= self.entries@.len(),
                self@.len() == self.entries@.len(),
                rank(self@.take(n as int), index as nat) == rank(self@, index as nat),
            decreases n,
        {
            assert(self@.take(n as int).last() == self.entries@[n - 1]@);
            assert(self@.take(n as int).drop_last() =~= self@.take(n - 1));
            n = n - 1;
        }
        assert(n > 0 ==> self@.take(n as int).last() == self.entries@[n - 1]@);
        n
    }

    /// The call with this index, where the table has one.
    pub fn get(&self, index: usize) -> (r: Option<&PendingCall>)
        ensures
            r matches Some(c) ==> known(self@, index as nat) && c@ == call_at(
                self@,
                index as nat,
            ),
            r is None ==> !known(self@, index as nat),
    {
        let n: usize = self.rank_of(index);
        if n < self.entries.len() && self.entries[n].index == index {
            assert(self@[n as int] == self.entries@[n as int]@);
            Some(&self.entries[n])
        } else {
            assert(n < self@.len() ==> self@[n as int] == self.entries@[n as int]@);
            None
        }
    }

    /// A copy of the call with this index, empty where the table has none.
    pub fn copy_of(&self, index: usize) -> (r: PendingCall)
        ensures
            r@ == call_at(self@, index as nat),
    {
        match self.get(index) {
            Some(c) => PendingCall {
                index: c.index,
                id: c.id.clone(),
                name: c.name.clone(),
                arguments: c.arguments.clone(),
                started: c.started,
                completed: c.completed,
            },
            None => PendingCall {
                index,
                id: String::new(),
                name: String::new(),
                arguments: String::new(),
                started: false,
                completed: false,
            },
        }
    }

    /// Puts a call under its index.
    pub fn put(&mut self, c: PendingCall)
        ensures
            final(self)@ == with_call(old(self)@, c@),
    {
        let n: usize = self.rank_of(c.index);
        let ghost c0 = c;
        if n < self.entries.len() && self.entries[n].index == c.index {
            assert(self@[n as int] == self.entries@[n as int]@);
            self.entries[n] = c;
        } else {
            assert(n < self@.len() ==> self@[n as int] == self.entries@[n as int]@);
            self.entries.insert(n, c);
        }
        assert(self@ =~= with_call(old(self)@, c0@));
    }

    /// Hands the ready calls out, in the order of their indices.
    pub fn emit_ready(&mut self, id: &Option<String>, out: &mut Vec<ApiStreamChunk>)
        ensures
            final(self)@ == handed_out(old(self)@),
            types::chunks(final(out)@) == types::chunks(old(out)@) + ready_chunks(
                old(self)@,
                text::opt(*id),
            ),
    {
        let ghost before = self@;
        let mut i: usize = 0;
        assert(types::chunks(out@) =~= types::chunks(old(out)@) + ready_chunks(
            before.take(0),
            text::opt(*id),
        ));
        while i < self.entries.len()
            invariant
                i <= self.entries@.len(),
                before == old(self)@,
                self@.len() == before.len(),
                self.entries@.len() == before.len(),
                forall|j: int| 0 <= j < i ==> (#[trigger] self@[j]) == handed_out(before)[j],
                forall|j: int| i <= j < before.len() ==> (#[trigger] self@[j]) == before[j],
                types::chunks(out@) == types::chunks(old(out)@) + ready_chunks(
                    before.take(i as int),
                    text::opt(*id),
                ),
            decreases self.entries@.len() - i,
        {
            let ghost c = before[i as int];
            proof {
                assert(self@[i as int] == self.entries@[i as int]@);
                assert(before.take(i + 1).drop_last() =~= before.take(i as int));
                assert(before.take(i + 1).last() == c);
            }
            if !self.entries[i].completed && !self.entries[i].id.as_str().is_empty()
                && !self.entries[i].name.as_str().is_empty() {
                let arguments = tool_args::validate_tool_call_args(
                    self.entries[i].arguments.as_str(),
                    "",
                    "",
                );
                let ghost emitted = types::chunks(out@);
                types::emit_call(
                    out,
                    self.entries[i].id.as_str(),
                    self.entries[i].name.as_str(),
                    arguments.as_str(),
                    id,
                );
                assert(types::chunks(out@) =~= types::chunks(old(out)@) + ready_chunks(
                    before.take(i + 1),
                    text::opt(*id),
                ));
                let ghost mid = self@;
                self.entries[i].completed = true;
                assert(self@ =~= mid.update(i as int, Call { completed: true, ..c }));
            }
            i = i + 1;
        }
        assert(self@ =~= handed_out(before));
        assert(before.take(i as int) =~= before);
    }
}

} // verus!
