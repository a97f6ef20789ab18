//! The context-navigation protocol and the dispatch engine: what a command may
//! ask of the engine (stay, descend, return), the stack of ancestor contexts,
//! and the per-line dispatch step the interactive loop is built on. Ownership
//! of contexts moves between the active slot and the stack in one step; no
//! context is ever held in two places at once.

use vstd::prelude::*;
use crate::actions::straitjacket::CommandAction;
use crate::text::{tokenize, tokens_of};

verus! {

/// The navigation a command requests, returned beside its outcome.
pub enum NextContext<C> {
    /// Stay in the active context.
    Unchanged,
    /// Descend: the engine takes ownership of the new context, moves the
    /// active one onto the stack, and makes the new one active.
    Push(C),
    /// Return: the stack's top, if any, becomes active and the previous
    /// active context is discarded; a supplied replacement is discarded
    /// without use. With an empty stack nothing changes.
    Pop(Option<C>),
}

/// A unit of interactive state: a prompt and a command handler.
pub trait ReadLineContext: Sized {
    /// The context's internal well-formedness; commands preserve it and every
    /// context a command hands to the engine satisfies it.
    spec fn wf(&self) -> bool;

    /// What the prompt reads.
    spec fn prompt_spec(&self) -> Seq<char>;

    /// The string shown before input on the current line.
    fn prompt(&self) -> (r: &str)
        ensures
            r@ == self.prompt_spec(),
    ;

    /// Handles one command (the line's first token) with its arguments (the
    /// remaining tokens), returning what happened and what navigation should
    /// follow.
    fn command(&mut self, cmd: &str, args: &[String]) -> (r: (CommandAction, NextContext<Self>))
        requires
            old(self).wf(),
        ensures
            final(self).wf(),
            match r.1 {
                NextContext::Push(c) => c.wf(),
                NextContext::Pop(rep) => match rep {
                    Some(c) => c.wf(),
                    None => true,
                },
                NextContext::Unchanged => true,
            },
    ;
}

/// The dispatcher's state: the active context and the ancestors it can
/// return to. The active context never appears in the stack; the stack's
/// top, if present, is its immediate parent.
#[verifier::ext_equal]
#[verifier::reject_recursive_types(C)]
pub struct StackModel<C> {
    pub active: C,
    pub stack: Seq<C>,
}

/// How a navigation instruction transforms the dispatcher's state: stay,
/// move the active context under the new one, or return to the parent
/// (a return with no parent changes nothing, and a replacement handed to a
/// return is discarded without use).
pub open spec fn apply_next_spec<C>(s: StackModel<C>, next: NextContext<C>) -> StackModel<C> {
    match next {
        NextContext::Unchanged => s,
        NextContext::Push(c) => StackModel { active: c, stack: s.stack.push(s.active) },
        NextContext::Pop(_) => {
            if s.stack.len() > 0 {
                StackModel { active: s.stack.last(), stack: s.stack.drop_last() }
            } else {
                s
            }
        },
    }
}

/// A descent makes the pushed context active and parks the previous active
/// context on top of the stack.
pub proof fn lemma_push_sets_active<C>(s: StackModel<C>, c: C)
    ensures
        apply_next_spec(s, NextContext::Push(c)).active == c,
        apply_next_spec(s, NextContext::Push(c)).stack == s.stack.push(s.active),
{
}

/// A descent followed by a return restores exactly the state before the
/// descent: the same active context, over the same stack.
pub proof fn lemma_push_then_pop_round_trip<C>(s: StackModel<C>, c: C, replacement: Option<C>)
    ensures
        apply_next_spec(apply_next_spec(s, NextContext::Push(c)), NextContext::Pop(replacement))
            == s,
{
    let s1 = apply_next_spec(s, NextContext::Push(c));
    assert(s1.stack.len() > 0);
    assert(s1.stack.last() == s.active);
    assert(s1.stack.drop_last() =~= s.stack);
    assert(apply_next_spec(s1, NextContext::Pop(replacement)) =~= s);
}

/// A return with an empty stack leaves the dispatcher unchanged.
pub proof fn lemma_pop_empty_unchanged<C>(s: StackModel<C>, replacement: Option<C>)
    requires
        s.stack.len() == 0,
    ensures
        apply_next_spec(s, NextContext::Pop(replacement)) == s,
{
}

/// The dispatch engine: the single active context and the stack of its
/// ancestors, exclusively owned here.
#[verifier::reject_recursive_types(C)]
pub struct Dispatcher<C> {
    active: C,
    stack: Vec<C>,
}

impl<C> View for Dispatcher<C> {
    type V = StackModel<C>;

    closed spec fn view(&self) -> StackModel<C> {
        StackModel { active: self.active, stack: self.stack@ }
    }
}

impl<C> Dispatcher<C> {
    /// Starts dispatching in `root`, with no ancestors.
    pub fn new(root: C) -> (r: Dispatcher<C>)
        ensures
            r@.active == root,
            r@.stack.len() == 0,
    {
        Dispatcher { active: root, stack: Vec::new() }
    }

    /// The context currently receiving input.
    pub fn active(&self) -> (r: &C)
        ensures
            *r == self@.active,
    {
        &self.active
    }

    /// How many ancestors the active context can return to.
    pub fn depth(&self) -> (r: usize)
        ensures
            r == self@.stack.len(),
    {
        self.stack.len()
    }

    /// Applies a navigation instruction; see [`apply_next_spec`]. The swap on
    /// a descent is one atomic step: the old active context moves onto the
    /// stack and the new one into the active slot.
    pub fn apply_next(&mut self, next: NextContext<C>)
        ensures
            final(self)@ == apply_next_spec(old(self)@, next),
    {
        match next {
            NextContext::Unchanged => {},
            NextContext::Push(c) => {
                let mut parked = c;
                core::mem::swap(&mut self.active, &mut parked);
                self.stack.push(parked);
            },
            NextContext::Pop(_) => {
                match self.stack.pop() {
                    Some(parent) => {
                        self.active = parent;
                    },
                    None => {},
                }
            },
        }
        proof {
            assert(final(self)@ =~= apply_next_spec(old(self)@, next));
        }
    }
}

/// What one read from the line-editing collaborator reported.
pub enum ReadEvent {
    /// A line of input.
    Line(String),
    /// The interrupt signal; advisory only, the session keeps running.
    Interrupted,
    /// The end-of-input signal; the only way a session ends.
    EndOfInput,
}

/// Whether the interactive session goes on.
pub enum SessionState {
    Running,
    Terminated,
}

/// Splits an input line into its whitespace-delimited words; `None` when the
/// line holds no word at all.
pub fn parse_line(line: &str) -> (r: Option<Vec<String>>)
    ensures
        match r {
            Some(words) => words.deep_view() == tokens_of(line@) && words.deep_view().len() > 0,
            None => tokens_of(line@).len() == 0,
        },
{
    let words = tokenize(line);
    if words.len() == 0 {
        None
    } else {
        Some(words)
    }
}

impl<C: ReadLineContext> Dispatcher<C> {
    /// Every context the dispatcher owns — the active one and each parked
    /// ancestor — is well formed.
    pub open spec fn wf_all(&self) -> bool {
        &&& self@.active.wf()
        &&& forall|i: int| 0 <= i < self@.stack.len() ==> (#[trigger] self@.stack[i]).wf()
    }

    /// Processes one input line: tokenizes it, hands the first token and the
    /// rest to the active context, applies the returned navigation, and
    /// reports the outcome. A line with no token is ignored.
    pub fn dispatch_line(&mut self, line: &str) -> (r: Option<CommandAction>)
        requires
            old(self).wf_all(),
        ensures
            final(self).wf_all(),
            tokens_of(line@).len() == 0 <==> r is None,
            r is None ==> *final(self) == *old(self),
    {
        match parse_line(line) {
            None => None,
            Some(words) => {
                let cmd = words[0].as_str();
                let args = vstd::slice::slice_subrange(words.as_slice(), 1, words.len());
                let (outcome, next) = self.active.command(cmd, args);
                let ghost mid = self@;
                let ghost gnext = next;
                self.apply_next(next);
                proof {
                    let pre = old(self)@;
                    assert(mid.stack == pre.stack);
                    match gnext {
                        NextContext::Unchanged => {
                            assert forall|i: int| 0 <= i < self@.stack.len() implies (
                            #[trigger] self@.stack[i]).wf() by {
                                assert(self@.stack[i] == pre.stack[i]);
                                assert(pre.stack[i].wf());
                            }
                        },
                        NextContext::Push(c) => {
                            assert forall|i: int| 0 <= i < self@.stack.len() implies (
                            #[trigger] self@.stack[i]).wf() by {
                                if i < pre.stack.len() {
                                    assert(self@.stack[i] == pre.stack[i]);
                                    assert(pre.stack[i].wf());
                                } else {
                                    assert(self@.stack[i] == mid.active);
                                }
                            }
                        },
                        NextContext::Pop(_) => {
                            if pre.stack.len() > 0 {
                                assert(pre.stack[pre.stack.len() - 1].wf());
                                assert(self@.active == mid.stack[mid.stack.len() - 1]);
                            }
                            assert forall|i: int| 0 <= i < self@.stack.len() implies (
                            #[trigger] self@.stack[i]).wf() by {
                                assert(self@.stack[i] == pre.stack[i]);
                                assert(pre.stack[i].wf());
                            }
                        },
                    }
                }
                Some(outcome)
            },
        }
    }

    /// One turn of the interactive loop. A line is dispatched and never ends
    /// the session; an interrupt is reported by the caller and ends nothing;
    /// only end-of-input terminates. The outcome to report rides along.
    pub fn handle_event(&mut self, event: ReadEvent) -> (r: (
        SessionState,
        Option<CommandAction>,
    ))
        requires
            old(self).wf_all(),
        ensures
            final(self).wf_all(),
            match event {
                ReadEvent::Line(l) => r.0 is Running && (tokens_of(l@).len() == 0 <==> r.1
                    is None),
                ReadEvent::Interrupted => r.0 is Running && r.1 is None && *final(self) == *old(
                    self,
                ),
                ReadEvent::EndOfInput => r.0 is Terminated && r.1 is None && *final(self) == *old(
                    self,
                ),
            },
    {
        match event {
            ReadEvent::Line(line) => {
                let outcome = self.dispatch_line(line.as_str());
                (SessionState::Running, outcome)
            },
            ReadEvent::Interrupted => (SessionState::Running, None),
            ReadEvent::EndOfInput => (SessionState::Terminated, None),
        }
    }
}

} // verus!
