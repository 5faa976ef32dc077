//! What can be asked of a machine from outside.

use vstd::prelude::*;

use crate::dex;
use crate::dex::{find_method, DexFile, Wanted};
use crate::error;
use crate::error::{failure, ErrorView, Message, Outcome, VmError};
use crate::frames::{pop_frame, push_frame, Frame, FrameView, HostView, Status, StatusView};
use crate::host;
use crate::host::{does_answer, push_answer, Answer, AnswerView, Effect, Query};
use crate::interp::calls;
use crate::interp::calls::{find_object_method, missing_method};
use crate::laws::modes;
use crate::laws::running;
use crate::laws::running::{comes_after, restored};
use crate::machine;
use crate::machine::{with_receiver, Vm, VmConfig, VmView};
use crate::run;
use crate::table;
use crate::table::get_id;
use crate::text;
use crate::value;
use crate::value::{push_value, HeapObject, ObjectId, ObjectView, Value, ValueView};
use crate::world;
use crate::world::{CanvasState, Framework, FrameworkView, World, WorldView};

verus! {

/// What a request gives: the machine behind it, and the result, if the machine is done.
pub type Requested = (VmView, Option<Outcome>);

impl VmView {
    pub open spec fn idle(self) -> bool {
        self.status is Idle && self.stack.len() == 0
    }

    /// A request that is refused at once.
    pub open spec fn refused(self, e: ErrorView) -> Requested {
        (self, Some(Err(e)))
    }

    /// The call of a method, from an idle machine.
    pub open spec fn requested(self, index: nat, args: Seq<ValueView>) -> Requested {
        self.pushed(FrameView::Call { index, args }).settled()
    }

    pub open spec fn requested_named(
        self,
        class_name: Seq<char>,
        name: Seq<char>,
        prototype: Option<Seq<char>>,
        args: Seq<ValueView>,
    ) -> Requested {
        match self.dex.first(Wanted { class_name, name, prototype, coded: false }) {
            Some(index) => self.requested(index, args),
            None => self.refused(calls::not_found(class_name, name)),
        }
    }

    pub open spec fn requested_on(
        self,
        object: ObjectId,
        name: Seq<char>,
        args: Seq<ValueView>,
    ) -> Requested {
        match calls::method_of_object(&self.dex, self.world, object, name, true) {
            Ok(index) => self.requested(index, seq![ValueView::Object(object)] + args),
            Err(e) => self.refused(e),
        }
    }

    /// The rendering of a frame: the canvas is plain, and the instructions of the frame are
    /// counted from zero.
    pub open spec fn rendered(self, object: ObjectId, name: Seq<char>) -> Requested {
        match calls::method_of_object(&self.dex, self.world, object, name, false) {
            Err(e) => self.refused(e),
            Ok(index) => {
                let on_canvas = name == "onDraw"@;
                let drawn = if on_canvas {
                    self.world.with_object(
                        world::instance_of("Landroid/graphics/Canvas;"@),
                    )
                } else {
                    self.world
                };
                let args = if on_canvas {
                    seq![ValueView::Object(object), ValueView::Object(self.world.fresh())]
                } else {
                    seq![ValueView::Object(object)]
                };
                VmView {
                    world: WorldView {
                        frame_mode: true,
                        canvas_stack: Seq::empty(),
                        canvas_state: world::plain_canvas(),
                        ..drawn
                    },
                    frame_steps: 0,
                    frame_aborted: false,
                    ..self
                }.pushed(FrameView::Render).requested(index, args)
            },
        }
    }

    /// A touch of a view. Lifting the finger clicks the view where it has a click listener.
    pub open spec fn touched(self, view: ObjectId, action: i32, x: u32, y: u32) -> Requested {
        match (
            table::lookup(self.world.click_listeners, view),
            table::lookup(self.world.touch_listeners, view),
        ) {
            (Some(listener), _) if action == 1 => self.requested_on(
                listener,
                "onClick"@,
                seq![ValueView::Object(view)],
            ),
            (_, None) => self.refused(error::fault(0, 0, "view has no touch listener"@)),
            (_, Some(listener)) => {
                let event = self.world.fresh();
                VmView {
                    world: self.world.with_object(
                        world::instance_of("Landroid/view/MotionEvent;"@),
                    ).with_field(event, "action"@, ValueView::Int(action)).with_field(
                        event,
                        "x"@,
                        ValueView::Float(x),
                    ).with_field(event, "y"@, ValueView::Float(y)),
                    ..self
                }.requested_on(
                    listener,
                    "onTouch"@,
                    seq![ValueView::Object(view), ValueView::Object(event)],
                )
            },
        }
    }

    pub open spec fn clicked(self, view: ObjectId) -> Requested {
        match table::lookup(self.world.click_listeners, view) {
            Some(listener) => self.requested_on(
                listener,
                "onClick"@,
                seq![ValueView::Object(view)],
            ),
            None => self.refused(error::fault(0, 0, "view has no click listener"@)),
        }
    }

    /// An answer to the question that the machine asks; nothing where it asks none, or where
    /// this is no answer to it.
    pub open spec fn answered(self, answer: AnswerView) -> Option<VmView> {
        match (self.status, self.stack.len() > 0) {
            (StatusView::Asking(q), true) => match self.stack.last() {
                FrameView::Host(h) => if host::answers(q, answer) {
                    Some(
                        self.popped().pushed(
                            FrameView::Host(HostView { answers: h.answers.push(answer), ..h }),
                        ),
                    )
                } else {
                    None
                },
                _ => None,
            },
            _ => None,
        }
    }
}

/// A machine that is done has nothing left on its stack.
pub proof fn a_machine_that_is_done_is_empty(vm: VmView)
    requires
        vm.status !is Done,
    ensures
        vm.ran().status is Done ==> vm.ran().stack.len() == 0,
    decreases run::budget(vm), run::weight(vm),
{
    if vm.active() {
        run::a_step_makes_progress(vm);
        if vm.next().status is Done {
            lemma_only_empty_is_done(vm);
            assert(vm.next().ran() == vm.next());
        } else {
            a_machine_that_is_done_is_empty(vm.next());
        }
    }
}

proof fn lemma_only_empty_is_done(vm: VmView)
    requires
        vm.active(),
        vm.next().status is Done,
    ensures
        vm.stack.len() == 0,
        vm.next().stack == vm.stack,
{
    if vm.stack.len() > 0 {
        reveal(VmView::called);
        reveal(VmView::begun);
        reveal(VmView::entered);
        reveal(VmView::code_step);
        reveal(VmView::executed);
        reveal(VmView::fetched);
        reveal(VmView::loaded);
        reveal(VmView::invoked);
        reveal(VmView::host_step);
        reveal(VmView::received);
    }
}

/// A machine that has not run yet.
pub open spec fn fresh(dex: &DexFile, framework: FrameworkView, config: VmConfig) -> VmView {
    VmView {
        dex: *dex,
        config,
        world: WorldView {
            framework,
            heap: Seq::empty(),
            canvas_stack: Seq::empty(),
            canvas_state: world::plain_canvas(),
            touch_listeners: Seq::empty(),
            click_listeners: Seq::empty(),
            pending_activity: None,
            effects: Seq::empty(),
            frame_mode: false,
        },
        statics: Seq::empty(),
        initialized: Seq::empty(),
        frame_aborted: false,
        executed_steps: 0,
        frame_steps: 0,
        trace: Seq::empty(),
        stack: Seq::empty(),
        status: StatusView::Idle,
    }
}

pub open spec fn object_view(r: Option<&HeapObject>) -> Option<ObjectView> {
    match r {
        Some(o) => Some(o@),
        None => None,
    }
}

/// What became of an answer.
pub enum Resumed {
    /// The machine went on; the result, if it is done.
    Ran(Option<Result<Value, VmError>>),
    /// It was no answer to a question of the machine.
    Refused(Answer),
}

impl<'a> Vm<'a> {
    pub fn new(dex: &'a DexFile, framework: Framework, config: VmConfig) -> (r: Self)
        ensures
            r@ == fresh(dex, framework@, config),
            r@.idle(),
    {
        let r = Vm {
            dex,
            config,
            world: World {
                framework,
                heap: Vec::new(),
                canvas_stack: Vec::new(),
                canvas_state: CanvasState::default(),
                touch_listeners: Vec::new(),
                click_listeners: Vec::new(),
                pending_activity: None,
                effects: Vec::new(),
                frame_mode: false,
            },
            static_fields: Vec::new(),
            initialized_classes: Vec::new(),
            frame_aborted: false,
            executed_steps: 0,
            frame_steps: 0,
            trace: Vec::new(),
            stack: Vec::new(),
            status: Status::Idle,
        };
        assert(r@.world.heap =~= Seq::empty());
        assert(r@.world.effects =~= Seq::empty());
        assert(r@.statics =~= Seq::empty());
        assert(r@.initialized =~= Seq::empty());
        assert(r@.trace =~= Seq::empty());
        assert(r@.stack =~= Seq::empty());
        r
    }

    pub fn heap_object(&self, id: ObjectId) -> (r: Option<&HeapObject>)
        ensures
            object_view(r) == self@.world.object(id),
    {
        self.world.heap_object(id)
    }

    /// Takes the messages of the trace.
    pub fn drain_trace(&mut self) -> (r: Vec<Message>)
        ensures
            machine::messages(r@) == old(self)@.trace,
            final(self)@ == (VmView { trace: Seq::empty(), ..old(self)@ }),
    {
        let mut r: Vec<Message> = Vec::new();
        std::mem::swap(&mut self.trace, &mut r);
        assert(self@.trace =~= Seq::empty());
        r
    }

    /// Takes what the surroundings have to do.
    pub fn drain_effects(&mut self) -> (r: Vec<Effect>)
        ensures
            host::effects_view(r@) == old(self)@.world.effects,
            final(self)@ == (VmView {
                world: WorldView { effects: Seq::empty(), ..old(self)@.world },
                ..old(self)@
            }),
    {
        let mut r: Vec<Effect> = Vec::new();
        std::mem::swap(&mut self.world.effects, &mut r);
        assert(self@.world.effects =~= Seq::empty());
        r
    }

    pub fn enable_register_trace(&mut self, enabled: bool)
        ensures
            final(self)@ == (VmView {
                config: VmConfig { trace_registers: enabled, ..old(self)@.config },
                ..old(self)@
            }),
    {
        self.config.trace_registers = enabled;
    }

    /// Takes the activity that is to be started, and its intent.
    pub fn take_pending_activity(&mut self) -> (r: Option<(String, ObjectId)>)
        ensures
            world::activity_view(r) == old(self)@.world.pending_activity,
            final(self)@ == (VmView {
                world: WorldView { pending_activity: None, ..old(self)@.world },
                ..old(self)@
            }),
    {
        let mut r: Option<(String, ObjectId)> = None;
        std::mem::swap(&mut self.world.pending_activity, &mut r);
        r
    }

    pub fn set_activity_intent(&mut self, activity: ObjectId, intent: ObjectId)
        ensures
            final(self)@ == (VmView {
                world: old(self)@.world.with_field(
                    activity,
                    "intent"@,
                    ValueView::Object(intent),
                ),
                ..old(self)@
            }),
    {
        self.world.set_object_field(activity, "intent", Value::Object(intent));
    }

    pub fn set_view_id(&mut self, view: ObjectId, id: i32)
        ensures
            final(self)@ == (VmView {
                world: old(self)@.world.with_field(view, "view_id"@, ValueView::Int(id)),
                ..old(self)@
            }),
    {
        self.world.set_object_field(view, "view_id", Value::Int(id));
    }

    pub fn alloc_instance(&mut self, class_name: &str) -> (r: ObjectId)
        ensures
            r == old(self)@.world.fresh(),
            final(self)@ == (VmView {
                world: old(self)@.world.with_object(world::instance_of(class_name@)),
                ..old(self)@
            }),
    {
        self.world.alloc_instance(class_name)
    }

    pub fn alloc_string(&mut self, value: &str) -> (r: ObjectId)
        ensures
            r == old(self)@.world.fresh(),
            final(self)@ == (VmView {
                world: old(self)@.world.with_object(ObjectView::String(value@)),
                ..old(self)@
            }),
    {
        self.world.alloc_string(value.to_owned())
    }

    pub fn alloc_collection(&mut self) -> (r: ObjectId)
        ensures
            r == old(self)@.world.fresh(),
            final(self)@ == (VmView {
                world: old(self)@.world.with_object(ObjectView::Collection(Seq::empty())),
                ..old(self)@
            }),
    {
        self.world.alloc_collection()
    }

    // Requests. Each runs until the machine is done, and gives the result, or until it asks.

    fn request(&mut self, index: usize, args: Vec<Value>) -> (r: Option<Result<Value, VmError>>)
        ensures
            (final(self)@, run::given(r)) == old(self)@.requested(
                index as nat,
                value::views(args@),
            ),
            r is Some ==> final(self)@.idle(),
            comes_after(old(self)@, final(self)@),
            modes::final_mode(final(self)@) == modes::final_mode(old(self)@),
            old(self)@.stack.len() == 0 && r is Some ==> restored(old(self)@, final(self)@),
    {
        push_frame(&mut self.stack, Frame::Call { index, args });
        self.status = Status::Running;
        proof {
            a_machine_that_is_done_is_empty(self@);
            running::a_run_loses_nothing(self@);
            modes::a_call_restores_the_mode(old(self)@, index as nat, value::views(args@));
        }
        let r = self.run();
        proof {
            if old(self)@.stack.len() == 0 && r is Some {
                assert(self@.stack =~= old(self)@.stack);
            }
        }
        r
    }

    pub fn run_method(&mut self, method_index: usize, args: Vec<Value>) -> (r: Option<
        Result<Value, VmError>,
    >)
        requires
            old(self)@.idle(),
        ensures
            (final(self)@, run::given(r)) == old(self)@.requested(
                method_index as nat,
                value::views(args@),
            ),
            r is Some ==> final(self)@.idle(),
            comes_after(old(self)@, final(self)@),
            modes::final_mode(final(self)@) == modes::final_mode(old(self)@),
            r is Some ==> restored(old(self)@, final(self)@),
    {
        self.request(method_index, args)
    }

    pub fn run_named_method(&mut self, class_name: &str, method_name: &str, args: Vec<Value>) -> (r:
        Option<Result<Value, VmError>>)
        requires
            old(self)@.idle(),
        ensures
            (final(self)@, run::given(r)) == old(self)@.requested_named(
                class_name@,
                method_name@,
                None,
                value::views(args@),
            ),
            r is Some ==> final(self)@.idle(),
            comes_after(old(self)@, final(self)@),
            modes::final_mode(final(self)@) == modes::final_mode(old(self)@),
            r is Some ==> restored(old(self)@, final(self)@),
    {
        self.run_named_method_with_prototype(class_name, method_name, None, args)
    }

    pub fn run_named_method_with_prototype(
        &mut self,
        class_name: &str,
        method_name: &str,
        prototype: Option<&str>,
        args: Vec<Value>,
    ) -> (r: Option<Result<Value, VmError>>)
        requires
            old(self)@.idle(),
        ensures
            (final(self)@, run::given(r)) == old(self)@.requested_named(
                class_name@,
                method_name@,
                dex::some_text(prototype),
                value::views(args@),
            ),
            r is Some ==> final(self)@.idle(),
            comes_after(old(self)@, final(self)@),
            modes::final_mode(final(self)@) == modes::final_mode(old(self)@),
            r is Some ==> restored(old(self)@, final(self)@),
    {
        match find_method(self.dex, class_name, method_name, prototype, false) {
            Some(index) => self.request(index, args),
            None => Some(Err(missing_method(class_name, method_name))),
        }
    }

    pub fn run_instance_method(&mut self, object: ObjectId, method_name: &str, args: Vec<Value>) -> (
    r: Option<Result<Value, VmError>>)
        requires
            old(self)@.idle(),
        ensures
            (final(self)@, run::given(r)) == old(self)@.requested_on(
                object,
                method_name@,
                value::views(args@),
            ),
            r is Some ==> final(self)@.idle(),
            comes_after(old(self)@, final(self)@),
            modes::final_mode(final(self)@) == modes::final_mode(old(self)@),
            r is Some ==> restored(old(self)@, final(self)@),
    {
        match find_object_method(self.dex, &self.world, object, method_name, true) {
            Ok(index) => {
                let all = with_receiver(object, args);
                self.request(index, all)
            },
            Err(e) => Some(Err(e)),
        }
    }

    pub fn render_frame(&mut self, object: ObjectId, method_name: &str) -> (r: Option<
        Result<Value, VmError>,
    >)
        requires
            old(self)@.idle(),
        ensures
            (final(self)@, run::given(r)) == old(self)@.rendered(object, method_name@),
            r is Some ==> final(self)@.idle(),
            comes_after(old(self)@, final(self)@),
    {
        let index = match find_object_method(self.dex, &self.world, object, method_name, false) {
            Ok(index) => index,
            Err(e) => {
                return Some(Err(e));
            },
        };
        let mut args: Vec<Value> = vec![Value::Object(object)];
        assert(value::views(args@) =~= seq![ValueView::Object(object)]);
        if text::same(method_name, "onDraw") {
            let canvas = self.world.alloc_instance("Landroid/graphics/Canvas;");
            push_value(&mut args, Value::Object(canvas));
            assert(value::views(args@) =~= seq![
                ValueView::Object(object),
                ValueView::Object(canvas),
            ]);
        }
        self.world.frame_mode = true;
        self.frame_steps = 0;
        self.frame_aborted = false;
        self.world.canvas_stack = Vec::new();
        self.world.canvas_state = CanvasState::default();
        push_frame(&mut self.stack, Frame::Render);
        self.status = Status::Running;
        self.request(index, args)
    }

    /// A touch at a point, given by the bits of two singles.
    pub fn dispatch_touch(&mut self, view: ObjectId, action: i32, x: u32, y: u32) -> (r: Option<
        Result<Value, VmError>,
    >)
        requires
            old(self)@.idle(),
        ensures
            (final(self)@, run::given(r)) == old(self)@.touched(view, action, x, y),
            r is Some ==> final(self)@.idle(),
            comes_after(old(self)@, final(self)@),
            modes::final_mode(final(self)@) == modes::final_mode(old(self)@),
            r is Some ==> restored(old(self)@, final(self)@),
    {
        if action == 1 {
            match get_id(&self.world.click_listeners, view) {
                Some(listener) => {
                    let args = vec![Value::Object(view)];
                    assert(value::views(args@) =~= seq![ValueView::Object(view)]);
                    return self.run_instance_method(listener, "onClick", args);
                },
                None => {},
            }
        }
        match get_id(&self.world.touch_listeners, view) {
            None => Some(Err(failure(0, 0, "view has no touch listener"))),
            Some(listener) => {
                let event = self.world.alloc_instance("Landroid/view/MotionEvent;");
                self.world.set_object_field(event, "action", Value::Int(action));
                self.world.set_object_field(event, "x", Value::Float(x));
                self.world.set_object_field(event, "y", Value::Float(y));
                let args = vec![Value::Object(view), Value::Object(event)];
                assert(value::views(args@) =~= seq![
                    ValueView::Object(view),
                    ValueView::Object(event),
                ]);
                self.run_instance_method(listener, "onTouch", args)
            },
        }
    }

    pub fn click_view(&mut self, view: ObjectId) -> (r: Option<Result<Value, VmError>>)
        requires
            old(self)@.idle(),
        ensures
            (final(self)@, run::given(r)) == old(self)@.clicked(view),
            r is Some ==> final(self)@.idle(),
            comes_after(old(self)@, final(self)@),
            modes::final_mode(final(self)@) == modes::final_mode(old(self)@),
            r is Some ==> restored(old(self)@, final(self)@),
    {
        match get_id(&self.world.click_listeners, view) {
            Some(listener) => {
                let args = vec![Value::Object(view)];
                assert(value::views(args@) =~= seq![ValueView::Object(view)]);
                self.run_instance_method(listener, "onClick", args)
            },
            None => Some(Err(failure(0, 0, "view has no click listener"))),
        }
    }

    /// The question that the machine asks.
    pub fn question(&self) -> (r: Option<&Query>)
        ensures
            match r {
                Some(q) => self@.status == StatusView::Asking(q@),
                None => self@.status !is Asking,
            },
    {
        match &self.status {
            Status::Asking(q) => Some(q),
            _ => None,
        }
    }

    /// Answers the machine's question, and runs on. A refused answer is handed back.
    pub fn resume(&mut self, answer: Answer) -> (r: Resumed)
        ensures
            match r {
                Resumed::Ran(given) => old(self)@.answered(answer@) matches Some(vm) && (
                    final(self)@,
                    run::given(given),
                ) == vm.settled() && (given is Some ==> final(self)@.idle()),
                Resumed::Refused(back) => old(self)@.answered(answer@) is None && final(self)@
                    == old(self)@ && back == answer,
            },
            comes_after(old(self)@, final(self)@),
            modes::final_mode(final(self)@) == modes::final_mode(old(self)@),
    {
        let fits = match &self.status {
            Status::Asking(q) => does_answer(q, &answer),
            _ => false,
        };
        if !fits {
            return Resumed::Refused(answer);
        }
        match pop_frame(&mut self.stack) {
            None => {
                assert(self@.stack =~= old(self)@.stack);
                Resumed::Refused(answer)
            },
            Some(Frame::Host(h)) => {
                let mut h = h;
                push_answer(&mut h.answers, answer);
                push_frame(&mut self.stack, Frame::Host(h));
                self.status = Status::Running;
                proof {
                    a_machine_that_is_done_is_empty(self@);
                    running::a_run_loses_nothing(self@);
                    modes::an_answer_keeps_the_final_mode(old(self)@, answer@);
                }
                Resumed::Ran(self.run())
            },
            Some(frame) => {
                push_frame(&mut self.stack, frame);
                assert(self@.stack =~= old(self)@.stack);
                Resumed::Refused(answer)
            },
        }
    }
}

} // verus!
