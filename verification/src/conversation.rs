//! Programs as conversations: what is asked next, and what a reply leads to.
use vstd::prelude::*;

use crate::geometry::{IntRect, IntSize, Rect};
use crate::model::{GpuCacheHandle, TaskId, Token};
use crate::program::{
    ask_flag, ask_gpu_blocks, ask_int_rect, ask_int_size, ask_maybe_rect, ask_number, ask_rect,
    ask_task, ask_task_handle, ask_token, tell, Fault, Program, Reply, Request,
};
use crate::scalar::Scalar;

verus! {

impl<S> Program<S> {
    /// Whether this is asked next.
    pub open spec fn asks(self, q: Request) -> bool {
        self is Call && self->Call_0 == q
    }

    /// What is left after the reply to the next request.
    pub open spec fn on(self, r: Reply) -> Program<S> {
        (self->Call_1)(r)
    }
}

/// Where one program follows another, the first one talks until it is done.
pub proof fn talks_in_bind<S, T>(p: Program<S>, f: spec_fn(S) -> Program<T>)
    requires
        p is Call,
    ensures
        p.bind(f) is Call,
        p.bind(f)->Call_0 == p->Call_0,
        forall|r: Reply| #[trigger] p.bind(f).on(r) == p.on(r).bind(f),
{
}

/// A program that is done hands its result to the one that follows.
pub proof fn hands_over_in_bind<S, T>(s: S, f: spec_fn(S) -> Program<T>)
    ensures
        Program::Return(s).bind(f) == f(s),
{
}

/// What is left after a reply: a request goes on with a reply of its own kind, and with what that
/// reply holds; any other reply is a fault.
pub proof fn requests_go_on_with_their_own_replies<T>(
    q: Request,
    r: Reply,
    p: Program<T>,
    on_flag: spec_fn(bool) -> Program<T>,
    on_number: spec_fn(Scalar) -> Program<T>,
    on_rect: spec_fn(Rect) -> Program<T>,
    on_maybe_rect: spec_fn(Option<Rect>) -> Program<T>,
    on_int_rect: spec_fn(IntRect) -> Program<T>,
    on_int_size: spec_fn(IntSize) -> Program<T>,
    on_token: spec_fn(Token) -> Program<T>,
    on_task: spec_fn(TaskId) -> Program<T>,
    on_handle: spec_fn(u64) -> Program<T>,
    on_blocks: spec_fn(GpuCacheHandle, bool) -> Program<T>,
)
    ensures
        ({
            let fault = Program::<T>::Fail(Fault::UnexpectedReply);
            &&& tell(q, p).asks(q)
            &&& tell(q, p).on(r) == if r is Ack {
                p
            } else {
                fault
            }
            &&& ask_flag(q, on_flag).asks(q)
            &&& ask_flag(q, on_flag).on(r) == if let Reply::Flag(x) = r {
                on_flag(x)
            } else {
                fault
            }
            &&& ask_number(q, on_number).asks(q)
            &&& ask_number(q, on_number).on(r) == if let Reply::Number(x) = r {
                on_number(x)
            } else {
                fault
            }
            &&& ask_rect(q, on_rect).asks(q)
            &&& ask_rect(q, on_rect).on(r) == if let Reply::Rect(x) = r {
                on_rect(x)
            } else {
                fault
            }
            &&& ask_maybe_rect(q, on_maybe_rect).asks(q)
            &&& ask_maybe_rect(q, on_maybe_rect).on(r) == if let Reply::MaybeRect(x) = r {
                on_maybe_rect(x)
            } else {
                fault
            }
            &&& ask_int_rect(q, on_int_rect).asks(q)
            &&& ask_int_rect(q, on_int_rect).on(r) == if let Reply::IntRect(x) = r {
                on_int_rect(x)
            } else {
                fault
            }
            &&& ask_int_size(q, on_int_size).asks(q)
            &&& ask_int_size(q, on_int_size).on(r) == if let Reply::IntSize(x) = r {
                on_int_size(x)
            } else {
                fault
            }
            &&& ask_token(q, on_token).asks(q)
            &&& ask_token(q, on_token).on(r) == if let Reply::Token(x) = r {
                on_token(x)
            } else {
                fault
            }
            &&& ask_task(q, on_task).asks(q)
            &&& ask_task(q, on_task).on(r) == if let Reply::Task(x) = r {
                on_task(x)
            } else {
                fault
            }
            &&& ask_task_handle(q, on_handle).asks(q)
            &&& ask_task_handle(q, on_handle).on(r) == if let Reply::TaskHandle(x) = r {
                on_handle(x)
            } else {
                fault
            }
            &&& ask_gpu_blocks(q, on_blocks).asks(q)
            &&& ask_gpu_blocks(q, on_blocks).on(r) == if let Reply::GpuBlocks {
                handle,
                granted,
            } = r {
                on_blocks(handle, granted)
            } else {
                fault
            }
        }),
{
}

} // verus!
