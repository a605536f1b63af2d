//! The bounded conversation window.
//!
//! The window keeps the payload sent to the model within a token budget. It
//! is composed of a fixed instruction block, a fixed book-context block, and
//! an ordered tail of conversation messages. Whenever the total size exceeds
//! the budget, the most recently appended tail message is removed and the
//! check repeats; evicted entries are only excluded from context, since the
//! window is always rebuilt from persisted storage.

use crate::error::Error;
use crate::message::message_tokens;
use crate::message::Message;
use crate::message::MessageV;
use crate::tokens::Tokens;
use vstd::prelude::*;

verus! {

/// The token total of a conversation tail.
pub open spec fn conversation_tokens(s: Seq<MessageV>) -> nat
    decreases s.len(),
{
    if s.len() == 0 {
        0
    } else {
        conversation_tokens(s.drop_last()) + message_tokens(s.last())
    }
}

/// The trim policy: while the fixed blocks plus the tail exceed the budget,
/// drop the most recently appended tail message.
pub open spec fn trim_tail(fixed: nat, budget: nat, s: Seq<MessageV>) -> Seq<MessageV>
    decreases s.len(),
{
    if fixed + conversation_tokens(s) <= budget {
        s
    } else if s.len() == 0 {
        s
    } else {
        trim_tail(fixed, budget, s.drop_last())
    }
}

/// Trimming only ever removes a suffix of the appended order: what remains
/// is a prefix of the tail, and what was removed is exactly the matching
/// suffix.
pub proof fn lemma_trim_removes_suffix(fixed: nat, budget: nat, s: Seq<MessageV>)
    ensures
        exists|k: int|
            0 <= k <= s.len() && trim_tail(fixed, budget, s) == s.take(k),
    decreases s.len(),
{
    if fixed + conversation_tokens(s) <= budget {
        assert(s.take(s.len() as int) =~= s);
    } else if s.len() == 0 {
        assert(s.take(0) =~= s);
    } else {
        lemma_trim_removes_suffix(fixed, budget, s.drop_last());
        let k = choose|k: int|
            0 <= k <= s.drop_last().len() && trim_tail(fixed, budget, s.drop_last())
                == s.drop_last().take(k);
        assert(s.drop_last().take(k) =~= s.take(k));
    }
}

/// When the fixed blocks alone fit the budget, the trimmed window fits too.
pub proof fn lemma_trim_within_budget(fixed: nat, budget: nat, s: Seq<MessageV>)
    requires
        fixed <= budget,
    ensures
        fixed + conversation_tokens(trim_tail(fixed, budget, s)) <= budget,
    decreases s.len(),
{
    if fixed + conversation_tokens(s) <= budget {
    } else if s.len() == 0 {
    } else {
        lemma_trim_within_budget(fixed, budget, s.drop_last());
    }
}

/// The tail after appending a batch of messages one by one, trimming after
/// each append.
pub open spec fn append_all(fixed: nat, budget: nat, conv: Seq<MessageV>, msgs: Seq<MessageV>) -> Seq<
    MessageV,
>
    decreases msgs.len(),
{
    if msgs.len() == 0 {
        conv
    } else {
        append_all(
            fixed,
            budget,
            trim_tail(fixed, budget, conv.push(msgs.first())),
            msgs.drop_first(),
        )
    }
}

proof fn lemma_append_all_snoc(fixed: nat, budget: nat, conv: Seq<MessageV>, msgs: Seq<MessageV>, m: MessageV)
    ensures
        append_all(fixed, budget, conv, msgs.push(m)) == trim_tail(
            fixed,
            budget,
            append_all(fixed, budget, conv, msgs).push(m),
        ),
    decreases msgs.len(),
{
    let whole = msgs.push(m);
    assert(whole.len() > 0);
    assert(append_all(fixed, budget, conv, whole) == append_all(
        fixed,
        budget,
        trim_tail(fixed, budget, conv.push(whole.first())),
        whole.drop_first(),
    ));
    if msgs.len() == 0 {
        assert(whole.first() == m);
        assert(whole.drop_first() =~= Seq::<MessageV>::empty());
        assert(append_all(
            fixed,
            budget,
            trim_tail(fixed, budget, conv.push(m)),
            Seq::<MessageV>::empty(),
        ) == trim_tail(fixed, budget, conv.push(m)));
        assert(append_all(fixed, budget, conv, msgs) == conv);
    } else {
        assert(whole.first() == msgs.first());
        assert(whole.drop_first() =~= msgs.drop_first().push(m));
        lemma_append_all_snoc(
            fixed,
            budget,
            trim_tail(fixed, budget, conv.push(msgs.first())),
            msgs.drop_first(),
            m,
        );
        assert(append_all(fixed, budget, conv, msgs) == append_all(
            fixed,
            budget,
            trim_tail(fixed, budget, conv.push(msgs.first())),
            msgs.drop_first(),
        ));
    }
}

/// The in-memory, token-budgeted view of one conversation: a fixed
/// instruction block, a fixed book-context block, and the mutable tail.
#[derive(Debug)]
pub struct MessagesManager {
    instruction: Message,
    book_info: Message,
    conversation: Vec<Message>,
    token_count: u64,
    token_budget: u64,
}

impl MessagesManager {
    /// The instruction block.
    pub closed spec fn instruction_view(&self) -> MessageV {
        self.instruction@
    }

    /// The book-context block.
    pub closed spec fn book_info_view(&self) -> MessageV {
        self.book_info@
    }

    /// The tail of conversation messages.
    pub closed spec fn conv(&self) -> Seq<MessageV> {
        self.conversation.deep_view()
    }

    /// The configured budget.
    pub closed spec fn budget(&self) -> u64 {
        self.token_budget
    }

    /// The cached size total.
    pub closed spec fn cached_count(&self) -> u64 {
        self.token_count
    }

    /// The token total of the two fixed blocks.
    pub open spec fn fixed_tokens(&self) -> nat {
        message_tokens(self.instruction_view()) + message_tokens(self.book_info_view())
    }

    /// The window's total size: fixed blocks plus tail.
    pub open spec fn spec_total(&self) -> nat {
        self.fixed_tokens() + conversation_tokens(self.conv())
    }

    /// Well-formedness: the cached count is the true total, each fixed block
    /// fits within a quarter of the budget, and the whole window fits the
    /// budget.
    pub open spec fn wf(&self) -> bool {
        &&& self.cached_count() == self.spec_total()
        &&& message_tokens(self.instruction_view()) <= self.budget() as nat / 4
        &&& message_tokens(self.book_info_view()) <= self.budget() as nat / 4
        &&& self.spec_total() <= self.budget()
    }

    /// Builds the window from its fixed blocks and the persisted tail.
    /// Construction fails when either fixed block exceeds a quarter of the
    /// budget; otherwise the tail is trimmed to fit.
    pub fn load(
        instruction: Message,
        book_info: Message,
        conversation: Vec<Message>,
        token_budget: u64,
    ) -> (r: Result<MessagesManager, Error>)
        ensures
            r is Ok <==> message_tokens(instruction@) <= token_budget as nat / 4 && message_tokens(
                book_info@,
            ) <= token_budget as nat / 4,
            message_tokens(instruction@) > token_budget as nat / 4 ==> r == Err::<
                MessagesManager,
                Error,
            >(
                Error::TokenTooMuch {
                    current: message_tokens(instruction@) as u64,
                    budget: token_budget,
                },
            ),
            message_tokens(instruction@) <= token_budget as nat / 4 && message_tokens(book_info@)
                > token_budget as nat / 4 ==> r == Err::<MessagesManager, Error>(
                Error::TokenTooMuch {
                    current: message_tokens(book_info@) as u64,
                    budget: token_budget,
                },
            ),
            r matches Ok(m) ==> {
                &&& m.wf()
                &&& m.budget() == token_budget
                &&& m.instruction_view() == instruction@
                &&& m.book_info_view() == book_info@
                &&& m.conv() == trim_tail(
                    message_tokens(instruction@) + message_tokens(book_info@),
                    token_budget as nat,
                    conversation.deep_view(),
                )
                &&& m.spec_total() <= token_budget
            },
    {
        let instruction_tokens = instruction.tokens();
        if instruction_tokens > token_budget / 4 {
            return Err(Error::TokenTooMuch { current: instruction_tokens, budget: token_budget });
        }
        let book_info_tokens = book_info.tokens();
        if book_info_tokens > token_budget / 4 {
            return Err(Error::TokenTooMuch { current: book_info_tokens, budget: token_budget });
        }
        let mut m = MessagesManager {
            instruction,
            book_info,
            conversation,
            token_count: 0,
            token_budget,
        };
        let total = m.compute_total();
        m.trim_to_budget(total);
        Ok(m)
    }

    /// Recomputes the window's true total, in arithmetic wide enough never
    /// to overflow.
    fn compute_total(&self) -> (t: u128)
        ensures
            t == self.spec_total(),
    {
        let mut acc: u128 = self.instruction.tokens() as u128 + self.book_info.tokens() as u128;
        let n = self.conversation.len();
        let mut i: usize = 0;
        proof {
            assert(self.conv().take(0) =~= Seq::<MessageV>::empty());
        }
        while i < n
            invariant
                0 <= i <= n,
                n == self.conversation@.len(),
                acc == self.fixed_tokens() + conversation_tokens(self.conv().take(i as int)),
                acc <= (2 + i) as int * 0xffff_ffff_ffff_ffff,
            decreases n - i,
        {
            let t = self.conversation[i].tokens();
            proof {
                let dv = self.conv();
                assert(dv.take(i + 1).drop_last() =~= dv.take(i as int));
                assert(dv.take(i + 1).last() == dv[i as int]);
                assert(dv[i as int] == self.conversation@[i as int].deep_view());
            }
            acc = acc + t as u128;
            i = i + 1;
        }
        proof {
            assert(self.conv().take(n as int) =~= self.conv());
        }
        acc
    }

    /// Removes newest tail messages until the window fits its budget.
    /// `total` is the window's current true size.
    fn trim_to_budget(&mut self, total: u128)
        requires
            total == old(self).spec_total(),
            message_tokens(old(self).instruction@) <= old(self).token_budget as nat / 4,
            message_tokens(old(self).book_info@) <= old(self).token_budget as nat / 4,
        ensures
            final(self).instruction == old(self).instruction,
            final(self).book_info == old(self).book_info,
            final(self).token_budget == old(self).token_budget,
            final(self).wf(),
            final(self).token_count <= final(self).token_budget,
            final(self).conv() == trim_tail(
                old(self).fixed_tokens(),
                old(self).token_budget as nat,
                old(self).conv(),
            ),
    {
        let budget = self.token_budget;
        let mut current = total;
        loop
            invariant
                self.instruction == old(self).instruction,
                self.book_info == old(self).book_info,
                self.token_budget == old(self).token_budget,
                self.token_count == old(self).token_count,
                budget == self.token_budget,
                current == self.spec_total(),
                message_tokens(self.instruction@) <= budget as nat / 4,
                message_tokens(self.book_info@) <= budget as nat / 4,
                trim_tail(self.fixed_tokens(), budget as nat, self.conv()) == trim_tail(
                    old(self).fixed_tokens(),
                    budget as nat,
                    old(self).conv(),
                ),
            ensures
                self.instruction == old(self).instruction,
                self.book_info == old(self).book_info,
                self.token_budget == old(self).token_budget,
                current == self.spec_total(),
                current <= budget as u128,
                trim_tail(self.fixed_tokens(), budget as nat, self.conv()) == trim_tail(
                    old(self).fixed_tokens(),
                    budget as nat,
                    old(self).conv(),
                ),
            decreases self.conversation@.len(),
        {
            if current <= budget as u128 {
                break ;
            }
            // Over budget: the fixed blocks alone fit, so the tail is not
            // empty and its newest message can go.
            proof {
                if self.conversation@.len() == 0 {
                    assert(self.conv() =~= Seq::<MessageV>::empty());
                    assert(current == self.fixed_tokens());
                    assert(false);
                }
            }
            let ghost pre = self.conv();
            let msg = match self.conversation.pop() {
                Some(msg) => msg,
                None => {
                    proof {
                        assert(false);
                    }
                    break ;
                },
            };
            proof {
                assert forall|k: int| 0 <= k < pre.len() - 1 implies #[trigger] self.conv()[k]
                    == pre.drop_last()[k] by {
                    assert(self.conv()[k] == self.conversation@[k].deep_view());
                }
                assert(self.conv() =~= pre.drop_last());
                assert(msg.deep_view() == pre.last());
            }
            let t = msg.tokens();
            current = current - t as u128;
        }
        proof {
            assert(self.fixed_tokens() + conversation_tokens(self.conv()) <= budget as nat);
            assert(trim_tail(self.fixed_tokens(), budget as nat, self.conv()) == self.conv());
        }
        self.token_count = current as u64;
    }

    /// The full ordered message list the model request is built from: the
    /// instruction block, the book-context block, then the tail.
    pub fn get_messages(&self) -> (r: Vec<Message>)
        ensures
            r.deep_view() == seq![self.instruction_view(), self.book_info_view()] + self.conv(),
    {
        let mut result: Vec<Message> = Vec::new();
        result.push(self.instruction.clone());
        result.push(self.book_info.clone());
        let n = self.conversation.len();
        let mut i: usize = 0;
        while i < n
            invariant
                0 <= i <= n,
                n == self.conversation@.len(),
                result@.len() == 2 + i,
                result.deep_view() == seq![self.instruction@, self.book_info@] + self.conv().take(
                    i as int,
                ),
            decreases n - i,
        {
            let ghost pre = result.deep_view();
            let item = self.conversation[i].clone();
            proof {
                assert(item.deep_view() == self.conv()[i as int]);
            }
            result.push(item);
            proof {
                assert forall|k: int| 0 <= k < pre.len() implies #[trigger] result.deep_view()[k]
                    == pre[k] by {
                    assert(result.deep_view()[k] == result@[k].deep_view());
                }
                assert(result.deep_view() =~= seq![self.instruction@, self.book_info@]
                    + self.conv().take(i + 1));
            }
            i = i + 1;
        }
        proof {
            assert(self.conv().take(n as int) =~= self.conv());
        }
        result
    }

    /// The window's current total size.
    pub fn get_token_count(&self) -> (r: u64)
        requires
            self.wf(),
        ensures
            r == self.spec_total(),
    {
        self.token_count
    }

    /// Appends one message to the tail, then trims back to the budget. The
    /// total size never exceeds the budget once the append completes.
    pub fn add_conversation_message(&mut self, message: Message)
        requires
            old(self).wf(),
        ensures
            final(self).wf(),
            final(self).spec_total() <= final(self).budget(),
            final(self).budget() == old(self).budget(),
            final(self).instruction_view() == old(self).instruction_view(),
            final(self).book_info_view() == old(self).book_info_view(),
            final(self).conv() == trim_tail(
                old(self).fixed_tokens(),
                old(self).budget() as nat,
                old(self).conv().push(message@),
            ),
    {
        let t = message.tokens();
        let total: u128 = self.token_count as u128 + t as u128;
        let ghost pre = self.conv();
        let ghost mv = message@;
        self.conversation.push(message);
        proof {
            assert forall|k: int| 0 <= k < pre.len() implies #[trigger] self.conv()[k] == pre[k] by {
                assert(self.conv()[k] == self.conversation@[k].deep_view());
            }
            assert(self.conv() =~= pre.push(mv));
            assert(self.conv().drop_last() =~= pre);
            assert(self.conv().last() == mv);
        }
        self.trim_to_budget(total);
    }

    /// Appends a batch of messages, repeating single-append semantics in
    /// order.
    pub fn add_conversation_messages(&mut self, messages: Vec<Message>)
        requires
            old(self).wf(),
        ensures
            final(self).wf(),
            final(self).spec_total() <= final(self).budget(),
            final(self).budget() == old(self).budget(),
            final(self).instruction_view() == old(self).instruction_view(),
            final(self).book_info_view() == old(self).book_info_view(),
            final(self).conv() == append_all(
                old(self).fixed_tokens(),
                old(self).budget() as nat,
                old(self).conv(),
                messages.deep_view(),
            ),
    {
        let n = messages.len();
        let mut i: usize = 0;
        proof {
            assert(messages.deep_view().take(0) =~= Seq::<MessageV>::empty());
        }
        while i < n
            invariant
                0 <= i <= n,
                n == messages@.len(),
                self.wf(),
                self.budget() == old(self).budget(),
                self.instruction_view() == old(self).instruction_view(),
                self.book_info_view() == old(self).book_info_view(),
                self.fixed_tokens() == old(self).fixed_tokens(),
                self.conv() == append_all(
                    old(self).fixed_tokens(),
                    old(self).budget() as nat,
                    old(self).conv(),
                    messages.deep_view().take(i as int),
                ),
            decreases n - i,
        {
            let item = messages[i].clone();
            proof {
                assert(item.deep_view() == messages.deep_view()[i as int]);
            }
            let ghost before = self.conv();
            self.add_conversation_message(item);
            proof {
                let dv = messages.deep_view();
                assert(dv.take(i + 1).drop_last() =~= dv.take(i as int));
                assert(dv.take(i + 1).last() == dv[i as int]);
                lemma_append_all_snoc(
                    old(self).fixed_tokens(),
                    old(self).budget() as nat,
                    old(self).conv(),
                    dv.take(i as int),
                    dv[i as int],
                );
                assert(dv.take(i as int).push(dv[i as int]) =~= dv.take(i + 1));
            }
            i = i + 1;
        }
        proof {
            assert(messages.deep_view().take(n as int) =~= messages.deep_view());
        }
    }

    /// Removes newest tail messages until the window fits its budget.
    pub fn clean_conversation_messages(&mut self)
        requires
            old(self).wf(),
        ensures
            final(self).wf(),
            final(self).spec_total() <= final(self).budget(),
            final(self).budget() == old(self).budget(),
            final(self).instruction_view() == old(self).instruction_view(),
            final(self).book_info_view() == old(self).book_info_view(),
            final(self).conv() == trim_tail(
                old(self).fixed_tokens(),
                old(self).budget() as nat,
                old(self).conv(),
            ),
    {
        let total = self.token_count as u128;
        self.trim_to_budget(total);
    }
}

} // verus!
