//! What waits on the stack of a running machine.

use vstd::prelude::*;

use crate::code::{Activation, ActivationView};
use crate::dex::{CodeItem, Method};
use crate::error;
use crate::error::{Outcome, VmError};
use crate::host;
use crate::host::{AnswerView, Answers, Query, QueryView};
use crate::text;
use crate::value;
use crate::value::{Value, ValueView};

verus! {

/// A class and a method of it.
pub type Place<'a> = Option<(&'a str, &'a str)>;

pub type PlaceView = Option<(Seq<char>, Seq<char>)>;

pub open spec fn place_view(place: Place) -> PlaceView {
    match place {
        Some((class_name, method)) => Some((class_name@, method@)),
        None => None,
    }
}

/// What a method with code waits for.
#[derive(Debug, Clone, Copy, PartialEq, Eq, Structural)]
pub enum Phase {
    /// Nothing: its next instruction can be executed.
    Ready,
    /// Nothing: the static field whose class has been initialised can be read.
    Loading,
    /// The result of a call.
    AwaitingResult,
    /// The initialisation of the class of a static field.
    AwaitingClass,
}

/// A method with code. Its errors name the `place`, where there is one. `restore` says whether
/// frames are being rendered, and whether the frame was given up, once the method has ended.
#[derive(Debug)]
pub struct CodeFrame<'a> {
    pub code: &'a CodeItem,
    pub activation: Activation,
    pub phase: Phase,
    pub place: Place<'a>,
    pub restore: Option<(bool, bool)>,
}

pub struct CodeView {
    pub words: Seq<u16>,
    pub activation: ActivationView,
    pub phase: Phase,
    pub place: PlaceView,
    pub restore: Option<(bool, bool)>,
}

impl<'a> View for CodeFrame<'a> {
    type V = CodeView;

    open spec fn view(&self) -> CodeView {
        CodeView {
            words: self.code.instructions@,
            activation: self.activation@,
            phase: self.phase,
            place: place_view(self.place),
            restore: self.restore,
        }
    }
}

/// A method of the framework, or of the game library, with the answers it has got.
#[derive(Debug)]
pub struct HostFrame<'a> {
    pub class_name: &'a str,
    pub method: &'a str,
    pub args: Vec<Value>,
    pub answers: Answers,
    pub game: bool,
    pub place: Place<'a>,
}

pub struct HostView {
    pub class_name: Seq<char>,
    pub method: Seq<char>,
    pub args: Seq<ValueView>,
    pub answers: Seq<AnswerView>,
    pub game: bool,
    pub place: PlaceView,
}

impl<'a> View for HostFrame<'a> {
    type V = HostView;

    open spec fn view(&self) -> HostView {
        HostView {
            class_name: self.class_name@,
            method: self.method@,
            args: value::views(self.args@),
            answers: host::answers_view(self.answers@),
            game: self.game,
            place: place_view(self.place),
        }
    }
}

#[derive(Debug)]
pub enum Frame<'a> {
    /// A call that has not begun.
    Call { index: usize, args: Vec<Value> },
    /// A call whose class is being initialised.
    Prepared { method: &'a Method, args: Vec<Value> },
    Code(CodeFrame<'a>),
    Host(HostFrame<'a>),
    /// A method of the framework that gives a value once a method has returned.
    Callback { value: Value, place: Place<'a> },
    /// The rendering of a frame.
    Render,
}

pub enum FrameView {
    Call { index: nat, args: Seq<ValueView> },
    Prepared { method: Method, args: Seq<ValueView> },
    Code(CodeView),
    Host(HostView),
    Callback { value: ValueView, place: PlaceView },
    Render,
}

impl<'a> View for Frame<'a> {
    type V = FrameView;

    open spec fn view(&self) -> FrameView {
        match self {
            Frame::Call { index, args } => FrameView::Call {
                index: *index as nat,
                args: value::views(args@),
            },
            Frame::Prepared { method, args } => FrameView::Prepared {
                method: **method,
                args: value::views(args@),
            },
            Frame::Code(f) => FrameView::Code(f@),
            Frame::Host(h) => FrameView::Host(h@),
            Frame::Callback { value, place } => FrameView::Callback {
                value: value@,
                place: place_view(*place),
            },
            Frame::Render => FrameView::Render,
        }
    }
}

pub open spec fn frames<'a>(stack: Seq<Frame<'a>>) -> Seq<FrameView> {
    stack.map_values(|f: Frame<'a>| f@)
}

pub fn push_frame<'a>(stack: &mut Vec<Frame<'a>>, frame: Frame<'a>)
    ensures
        frames(final(stack)@) == frames(old(stack)@).push(frame@),
{
    stack.push(frame);
    assert(frames(stack@) =~= frames(old(stack)@).push(frame@));
}

pub fn pop_frame<'a>(stack: &mut Vec<Frame<'a>>) -> (r: Option<Frame<'a>>)
    ensures
        match r {
            Some(f) => {
                &&& frames(old(stack)@).len() > 0
                &&& frames(old(stack)@).last() == f@
                &&& frames(final(stack)@) == frames(old(stack)@).drop_last()
            },
            None => frames(old(stack)@).len() == 0 && final(stack)@ == old(stack)@,
        },
{
    let r = stack.pop();
    proof {
        if r is Some {
            assert(r->0 == old(stack)@.last());
            assert(frames(old(stack)@).last() == old(stack)@.last()@);
            assert(frames(stack@) =~= frames(old(stack)@).drop_last());
        }
    }
    r
}

/// How many methods with code are under way.
pub open spec fn depth(stack: Seq<FrameView>) -> nat
    decreases stack.len(),
{
    if stack.len() == 0 {
        0
    } else {
        depth(stack.drop_last()) + if stack.last() is Code {
            1nat
        } else {
            0
        }
    }
}

pub fn count_code<'a>(stack: &Vec<Frame<'a>>) -> (r: usize)
    ensures
        r == depth(frames(stack@)),
{
    let ghost all = frames(stack@);
    let mut n: usize = 0;
    let mut i: usize = 0;
    assert(all.take(0) =~= Seq::empty());
    while i < stack.len()
        invariant
            i <= stack.len(),
            n <= i,
            all == frames(stack@),
            n == depth(all.take(i as int)),
        decreases stack.len() - i,
    {
        assert(all.take(i as int + 1).drop_last() =~= all.take(i as int));
        match &stack[i] {
            Frame::Code(_) => {
                n += 1;
            },
            _ => {},
        }
        i += 1;
    }
    assert(all.take(i as int) =~= all);
    n
}

/// What a machine is doing.
#[derive(Debug)]
pub enum Status {
    Idle,
    Running,
    /// The uppermost frame gets a result.
    Returning(Result<Value, VmError>),
    /// The uppermost frame needs an answer.
    Asking(Query),
    Done(Result<Value, VmError>),
}

pub enum StatusView {
    Idle,
    Running,
    Returning(Outcome),
    Asking(QueryView),
    Done(Outcome),
}

impl View for Status {
    type V = StatusView;

    open spec fn view(&self) -> StatusView {
        match self {
            Status::Idle => StatusView::Idle,
            Status::Running => StatusView::Running,
            Status::Returning(r) => StatusView::Returning(error::outcome(*r)),
            Status::Asking(q) => StatusView::Asking(q@),
            Status::Done(r) => StatusView::Done(error::outcome(*r)),
        }
    }
}

/// A result whose error says where it came about.
pub open spec fn placed(r: Outcome, before: Seq<char>, place: PlaceView) -> Outcome {
    match (r, place) {
        (Err(e), Some((class_name, method))) => Err(
            error::noted(e, before + class_name + "->"@ + method),
        ),
        _ => r,
    }
}

pub fn place_error<'a>(r: Result<Value, VmError>, before: &str, place: Place<'a>) -> (out: Result<
    Value,
    VmError,
>)
    ensures
        error::outcome(out) == placed(error::outcome(r), before@, place_view(place)),
{
    match r {
        Ok(v) => Ok(v),
        Err(e) => match place {
            Some((class_name, method)) => {
                let start = text::join3(before, class_name, "->");
                Err(e.note(text::join(start.as_str(), method)))
            },
            None => Err(e),
        },
    }
}

} // verus!
