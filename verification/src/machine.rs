//! The machine: its state, and one step of it.

use vstd::prelude::*;

use crate::code;
use crate::code::{enter, ActivationView, Stepped};
use crate::dex;
use crate::dex::{find_method, CodeItem, DexFile, Method, Wanted};
use crate::error;
use crate::error::{failure, failure_text, Message, MessageView, Outcome, Piece, PieceView, VmError};
use crate::frames;
use crate::frames::{
    count_code, place_error, pop_frame, push_frame, CodeFrame, CodeView, Frame, FrameView,
    HostFrame, HostView, Phase, Place, Status, StatusView,
};
use crate::framework;
use crate::gdx;
use crate::host;
use crate::host::Answers;
use crate::interp::calls;
use crate::interp::execute;
use crate::interp::moves;
use crate::table;
use crate::text;
use crate::value;
use crate::value::{copy_values, Fields, FieldsView, Value, ValueView};
use crate::world::{World, WorldView};

verus! {

/// How far a program may go.
#[derive(Debug, Clone, Copy, PartialEq, Eq, Structural)]
pub struct VmConfig {
    pub max_steps: usize,
    pub max_call_depth: usize,
    pub trace_registers: bool,
}

impl Default for VmConfig {
    fn default() -> (r: Self)
        ensures
            r == (VmConfig { max_steps: 100_000, max_call_depth: 256, trace_registers: false }),
    {
        VmConfig { max_steps: 100_000, max_call_depth: 256, trace_registers: false }
    }
}

/// A machine for one program.
#[derive(Debug)]
pub struct Vm<'a> {
    pub dex: &'a DexFile,
    pub config: VmConfig,
    pub world: World,
    pub static_fields: Fields,
    pub initialized_classes: Vec<String>,
    pub frame_aborted: bool,
    pub executed_steps: usize,
    pub frame_steps: usize,
    pub trace: Vec<Message>,
    pub stack: Vec<Frame<'a>>,
    pub status: Status,
}

pub struct VmView {
    pub dex: DexFile,
    pub config: VmConfig,
    pub world: WorldView,
    pub statics: FieldsView,
    pub initialized: Seq<Seq<char>>,
    pub frame_aborted: bool,
    pub executed_steps: usize,
    pub frame_steps: usize,
    pub trace: Seq<MessageView>,
    pub stack: Seq<FrameView>,
    pub status: StatusView,
}

pub open spec fn messages(all: Seq<Message>) -> Seq<MessageView> {
    all.map_values(|m: Message| error::message_view(m@))
}

impl<'a> View for Vm<'a> {
    type V = VmView;

    open spec fn view(&self) -> VmView {
        VmView {
            dex: *self.dex,
            config: self.config,
            world: self.world@,
            statics: table::named(self.static_fields@),
            initialized: host::texts(self.initialized_classes@),
            frame_aborted: self.frame_aborted,
            executed_steps: self.executed_steps,
            frame_steps: self.frame_steps,
            trace: messages(self.trace@),
            stack: frames::frames(self.stack@),
            status: self.status@,
        }
    }
}

// Where a method without instructions of its own is answered.

pub open spec fn framework_class(class_name: Seq<char>) -> bool {
    text::starts(class_name, "Landroid/"@) || text::starts(class_name, "Ljava/"@) || text::starts(
        class_name,
        "Ldalvik/"@,
    ) || text::starts(class_name, "Lcom/badlogic/gdx/"@) || text::starts(
        class_name,
        "Lcom/hyperkani/common/"@,
    ) || text::starts(class_name, "Lcom/mobclix/"@)
}

fn is_framework_class(class_name: &str) -> (r: bool)
    ensures
        r == framework_class(class_name@),
{
    text::starts_with(class_name, "Landroid/") || text::starts_with(class_name, "Ljava/")
        || text::starts_with(class_name, "Ldalvik/") || text::starts_with(
        class_name,
        "Lcom/badlogic/gdx/",
    ) || text::starts_with(class_name, "Lcom/hyperkani/common/") || text::starts_with(
        class_name,
        "Lcom/mobclix/",
    )
}

/// The classes of the game library whose constructors do something.
pub open spec fn constructed_game_class(class_name: Seq<char>) -> bool {
    class_name == "Lcom/badlogic/gdx/graphics/g2d/TextureAtlas;"@ || class_name
        == "Lcom/badlogic/gdx/graphics/Texture;"@ || class_name
        == "Lcom/badlogic/gdx/graphics/g2d/Sprite;"@
}

fn is_constructed_game_class(class_name: &str) -> (r: bool)
    ensures
        r == constructed_game_class(class_name@),
{
    text::same(class_name, "Lcom/badlogic/gdx/graphics/g2d/TextureAtlas;") || text::same(
        class_name,
        "Lcom/badlogic/gdx/graphics/Texture;",
    ) || text::same(class_name, "Lcom/badlogic/gdx/graphics/g2d/Sprite;")
}

/// The methods of the common classes that are left out.
pub open spec fn left_out(class_name: Seq<char>, method: Seq<char>) -> bool {
    text::starts(class_name, "Lcom/hyperkani/common/"@) && (method == "update"@ || method
        == "dispose"@ || method == "pause"@ || method == "resume"@ || method
        == "playSoundsFromThisFrame"@)
}

fn is_left_out(class_name: &str, method: &str) -> (r: bool)
    ensures
        r == left_out(class_name@, method@),
{
    text::starts_with(class_name, "Lcom/hyperkani/common/") && (text::same(method, "update")
        || text::same(method, "dispose") || text::same(method, "pause") || text::same(
        method,
        "resume",
    ) || text::same(method, "playSoundsFromThisFrame"))
}

/// How a method is run.
pub enum RouteView {
    /// It does nothing.
    Nothing,
    /// By its code; its errors say so where `placed`.
    Code { placed: bool },
    /// By a class of the framework or of the game library.
    Host { class_name: Seq<char>, game: bool, placed: bool },
    /// Not at all.
    Nowhere,
}

enum Route<'a> {
    Nothing,
    Code { code: &'a CodeItem, placed: bool },
    Host { class_name: &'a str, game: bool, placed: bool },
    Nowhere,
}

impl<'a> View for Route<'a> {
    type V = RouteView;

    closed spec fn view(&self) -> RouteView {
        match self {
            Route::Nothing => RouteView::Nothing,
            Route::Code { code, placed } => RouteView::Code { placed: *placed },
            Route::Host { class_name, game, placed } => RouteView::Host {
                class_name: class_name@,
                game: *game,
                placed: *placed,
            },
            Route::Nowhere => RouteView::Nowhere,
        }
    }
}

pub open spec fn owner(m: Method) -> Option<Seq<char>> {
    match m.framework_owner {
        Some(s) => Some(s@),
        None => None,
    }
}

pub open spec fn is_abstract(m: Method) -> bool {
    match m.access_flags {
        Some(flags) => (flags & 0x0500) != 0,
        None => false,
    }
}

pub open spec fn is_game(class_name: Seq<char>) -> bool {
    text::starts(class_name, "Lcom/badlogic/gdx/"@)
}

pub open spec fn route(m: Method) -> RouteView {
    let class_name = m.class_name@;
    let method = m.name@;
    if framework_class(class_name) {
        if method == "<clinit>"@ || text::starts(class_name, "Lcom/mobclix/"@) {
            RouteView::Nothing
        } else if is_game(class_name) {
            if method == "<init>"@ && !constructed_game_class(class_name) {
                RouteView::Nothing
            } else {
                RouteView::Host { class_name, game: true, placed: false }
            }
        } else if left_out(class_name, method) {
            RouteView::Nothing
        } else if m.code is Some {
            RouteView::Code { placed: false }
        } else {
            match owner(m) {
                Some(o) => RouteView::Host {
                    class_name: o,
                    game: is_game(o),
                    placed: !is_game(o),
                },
                None => RouteView::Host { class_name, game: false, placed: true },
            }
        }
    } else if m.code is Some {
        RouteView::Code { placed: true }
    } else {
        match owner(m) {
            Some(o) => RouteView::Host { class_name: o, game: is_game(o), placed: false },
            None => if is_abstract(m) {
                RouteView::Nothing
            } else {
                RouteView::Nowhere
            },
        }
    }
}

fn find_route<'a>(m: &'a Method) -> (r: Route<'a>)
    ensures
        r@ == route(*m),
        r matches Route::Code { code, .. } ==> m.code == Some(*code),
{
    let class_name = m.class_name.as_str();
    let method = m.name.as_str();
    if is_framework_class(class_name) {
        if text::same(method, "<clinit>") || text::starts_with(class_name, "Lcom/mobclix/") {
            return Route::Nothing;
        }
        if text::starts_with(class_name, "Lcom/badlogic/gdx/") {
            if text::same(method, "<init>") && !is_constructed_game_class(class_name) {
                return Route::Nothing;
            }
            return Route::Host { class_name, game: true, placed: false };
        }
        if is_left_out(class_name, method) {
            return Route::Nothing;
        }
        match &m.code {
            Some(code) => {
                return Route::Code { code, placed: false };
            },
            None => {},
        }
        match &m.framework_owner {
            Some(o) => {
                let game = text::starts_with(o.as_str(), "Lcom/badlogic/gdx/");
                Route::Host { class_name: o.as_str(), game, placed: !game }
            },
            None => Route::Host { class_name, game: false, placed: true },
        }
    } else {
        match &m.code {
            Some(code) => {
                return Route::Code { code, placed: true };
            },
            None => {},
        }
        match &m.framework_owner {
            Some(o) => {
                let game = text::starts_with(o.as_str(), "Lcom/badlogic/gdx/");
                Route::Host { class_name: o.as_str(), game, placed: false }
            },
            None => match m.access_flags {
                Some(flags) => if flags & 0x0500 != 0 {
                    Route::Nothing
                } else {
                    Route::Nowhere
                },
                None => Route::Nowhere,
            },
        }
    }
}

/// The method that renders the game.
pub open spec fn renders(m: Method) -> bool {
    m.class_name@ == "Lcom/hyperkani/sliceice/Engine;"@ && m.name@ == "render"@
}

// Steps.

impl VmView {
    pub open spec fn pushed(self, frame: FrameView) -> VmView {
        VmView { stack: self.stack.push(frame), status: StatusView::Running, ..self }
    }

    pub open spec fn popped(self) -> VmView {
        VmView { stack: self.stack.drop_last(), status: StatusView::Running, ..self }
    }

    pub open spec fn returning(self, r: Outcome) -> VmView {
        VmView { status: StatusView::Returning(r), ..self }
    }

    pub open spec fn failing(self, pc: usize, opcode: u8, message: Seq<char>) -> VmView {
        self.returning(Err(error::fault(pc, opcode, message)))
    }

    /// A class counts as initialised from the moment its initialiser is called.
    pub open spec fn marked(self, class_name: Seq<char>) -> VmView {
        if self.initialized.contains(class_name) {
            self
        } else {
            VmView { initialized: self.initialized.push(class_name), ..self }
        }
    }

    /// The initialiser that a class still needs.
    pub open spec fn initializer(self, class_name: Seq<char>) -> Option<nat> {
        if self.initialized.contains(class_name) {
            None
        } else {
            self.dex.first(
                Wanted { class_name, name: "<clinit>"@, prototype: None, coded: false },
            )
        }
    }

    pub open spec fn traced_call(self, m: Method, args: Seq<ValueView>) -> VmView {
        if self.config.trace_registers {
            VmView {
                trace: self.trace.push(
                    seq![
                        PieceView::Text(
                            "enter "@ + m.class_name@ + "->"@ + m.name@ + "("@ + m.prototype@
                                + ") args="@,
                        ),
                        PieceView::Registers(args),
                    ],
                ),
                ..self
            }
        } else {
            self
        }
    }

    /// A call: it is refused, or the class is initialised first, or the method begins.
    #[verifier::opaque]
    pub open spec fn called(self, index: nat, args: Seq<ValueView>) -> VmView {
        if frames::depth(self.stack) >= self.config.max_call_depth {
            self.failing(0, 0, "maximum call depth exceeded"@)
        } else if index >= self.dex.methods.len() {
            self.failing(0, 0, "method index "@ + text::decimal(index as int) + " is invalid"@)
        } else {
            let m = self.dex.methods[index as int];
            let traced = self.traced_call(m, args);
            if m.name@ == "<clinit>"@ {
                traced.begun(m, args)
            } else {
                match traced.initializer(m.class_name@) {
                    Some(initializer) => traced.marked(m.class_name@).pushed(
                        FrameView::Prepared { method: m, args },
                    ).pushed(FrameView::Call { index: initializer, args: Seq::empty() }),
                    None => traced.marked(m.class_name@).begun(m, args),
                }
            }
        }
    }

    /// The beginning of a method whose class is initialised.
    #[verifier::opaque]
    pub open spec fn begun(self, m: Method, args: Seq<ValueView>) -> VmView {
        match route(m) {
            RouteView::Nothing => self.returning(Ok(ValueView::Void)),
            RouteView::Code { placed } => self.entered(m, args, placed),
            RouteView::Host { class_name, game, placed } => self.pushed(
                FrameView::Host(
                    HostView {
                        class_name,
                        method: m.name@,
                        args,
                        answers: Seq::empty(),
                        game,
                        place: if placed {
                            Some((class_name, m.name@))
                        } else {
                            None
                        },
                    },
                ),
            ),
            RouteView::Nowhere => self.failing(
                0,
                0,
                "method "@ + m.name@
                    + " has no code (abstract/native methods are not executable)"@,
            ),
        }
    }

    /// The beginning of a method with code. Nothing is run for a frame that was given up.
    #[verifier::opaque]
    pub open spec fn entered(self, m: Method, args: Seq<ValueView>, placed: bool) -> VmView {
        let code = m.code->0;
        let place = if placed {
            Some((m.class_name@, m.name@))
        } else {
            None
        };
        let mode = renders(m) || self.world.frame_mode;
        let aborted = !renders(m) && self.frame_aborted;
        if mode && aborted {
            self.returning(Ok(ValueView::Void))
        } else {
            match code::entered(code.registers_size as nat, code.ins_size as nat, args) {
                Err(e) => self.returning(frames::placed(Err(e), " in "@, place)),
                Ok(registers) => VmView {
                    world: WorldView { frame_mode: mode, ..self.world },
                    frame_aborted: aborted,
                    ..self
                }.pushed(
                    FrameView::Code(
                        CodeView {
                            words: code.instructions@,
                            activation: ActivationView {
                                registers,
                                pc: 0,
                                result: ValueView::Void,
                            },
                            phase: Phase::Ready,
                            place,
                            restore: if renders(m) {
                                Some((self.world.frame_mode, self.frame_aborted))
                            } else {
                                None
                            },
                        },
                    ),
                ),
            }
        }
    }

    /// The end of a method with code.
    pub open spec fn ended(self, f: CodeView, r: Outcome) -> VmView {
        let result = frames::placed(r, " in "@, f.place);
        match f.restore {
            Some((mode, aborted)) => VmView {
                world: WorldView { frame_mode: mode, ..self.world },
                frame_aborted: aborted,
                ..self
            }.returning(result),
            None => self.returning(result),
        }
    }

    pub open spec fn continued(self, f: CodeView, stepped: Stepped) -> VmView {
        match stepped {
            Ok(activation) => self.pushed(
                FrameView::Code(CodeView { activation, phase: Phase::Ready, ..f }),
            ),
            Err(e) => self.ended(f, Err(e)),
        }
    }

    /// One more instruction; while a frame is rendered, also one more of the frame.
    pub open spec fn counted(self) -> VmView {
        VmView {
            executed_steps: more(self.executed_steps),
            frame_steps: if self.world.frame_mode {
                more(self.frame_steps)
            } else {
                self.frame_steps
            },
            ..self
        }
    }

    /// Whether an instruction is one too many. A count that can rise no more is.
    pub open spec fn exhausted(self) -> bool {
        if self.world.frame_mode {
            self.frame_steps >= self.config.max_steps
        } else {
            self.executed_steps >= self.config.max_steps
        }
    }

    pub open spec fn traced_instruction(self, f: CodeView, opcode: u8) -> VmView {
        if self.config.trace_registers {
            VmView {
                trace: self.trace.push(
                    seq![
                        PieceView::Text(
                            "pc="@ + text::padded(
                                text::digits(f.activation.pc as nat, 10),
                                4,
                            ) + " opcode=0x"@ + text::padded(text::digits(opcode as nat, 16), 2)
                                + " "@,
                        ),
                        PieceView::Registers(f.activation.registers),
                    ],
                ),
                ..self
            }
        } else {
            self
        }
    }

    #[verifier::opaque]
    pub open spec fn loaded(self, f: CodeView, opcode: u8, instruction: u16) -> VmView {
        self.continued(
            f,
            calls::load_static_step(
                &self.dex,
                f.words,
                self.world,
                self.statics,
                f.activation,
                opcode,
                instruction,
            ),
        )
    }

    /// The reading of a static field, whose class is initialised first.
    #[verifier::opaque]
    pub open spec fn fetched(self, f: CodeView, opcode: u8, instruction: u16) -> VmView {
        match calls::static_class(&self.dex, f.words, f.activation, opcode) {
            Err(e) => self.ended(f, Err(e)),
            Ok(None) => self.loaded(f, opcode, instruction),
            Ok(Some(class_name)) => match self.initializer(class_name) {
                Some(initializer) => self.marked(class_name).pushed(
                    FrameView::Code(CodeView { phase: Phase::AwaitingClass, ..f }),
                ).pushed(FrameView::Call { index: initializer, args: Seq::empty() }),
                None => self.marked(class_name).loaded(f, opcode, instruction),
            },
        }
    }

    #[verifier::opaque]
    pub open spec fn invoked(self, f: CodeView, opcode: u8, instruction: u16) -> VmView {
        match calls::invocation(
            &self.dex,
            f.words,
            self.world,
            f.activation,
            opcode,
            instruction,
        ) {
            Err(e) => self.ended(f, Err(e)),
            Ok((index, args)) => self.pushed(
                FrameView::Code(
                    CodeView {
                        activation: code::skip(f.activation, 3),
                        phase: Phase::AwaitingResult,
                        ..f
                    },
                ),
            ).pushed(FrameView::Call { index, args }),
        }
    }

    /// One instruction.
    #[verifier::opaque]
    pub open spec fn executed(self, f: CodeView, opcode: u8, instruction: u16) -> VmView {
        if execute::ends_method(opcode) {
            self.ended(f, moves::returned(f.activation, opcode, instruction))
        } else if execute::loads_static(opcode) {
            self.fetched(f, opcode, instruction)
        } else if execute::stores_static(opcode) {
            let (statics, stepped) = calls::store_static_step(
                &self.dex,
                f.words,
                self.statics,
                f.activation,
                opcode,
                instruction,
            );
            VmView { statics, ..self }.continued(f, stepped)
        } else if execute::invokes(opcode) {
            self.invoked(f, opcode, instruction)
        } else {
            let (world, stepped) = execute::plain_step(
                &self.dex,
                f.words,
                self.world,
                f.activation,
                opcode,
                instruction,
            );
            VmView { world, ..self }.continued(f, stepped)
        }
    }

    /// One step of a method with code: it ends behind its last instruction, and at the limit
    /// of instructions; while a frame is rendered, that limit is no error.
    #[verifier::opaque]
    pub open spec fn code_step(self, f: CodeView) -> VmView {
        let pc = f.activation.pc;
        if pc >= f.words.len() {
            self.ended(f, Ok(ValueView::Void))
        } else {
            let instruction = f.words[pc as int];
            let opcode = (instruction % 0x100) as u8;
            if f.phase == Phase::Loading {
                self.loaded(f, opcode, instruction)
            } else if self.exhausted() {
                if self.world.frame_mode {
                    self.counted().ended(f, Ok(ValueView::Void))
                } else {
                    self.counted().ended(
                        f,
                        Err(error::fault(pc, 0, "instruction limit exceeded"@)),
                    )
                }
            } else {
                self.counted().traced_instruction(f, opcode).executed(f, opcode, instruction)
            }
        }
    }

    /// One step of a method of the framework or the game library: it calls a method, asks a
    /// question, or is performed.
    #[verifier::opaque]
    pub open spec fn host_step(self, h: HostView) -> VmView {
        match self.callback(h) {
            Some(c) => match calls::method_of_object(
                &self.dex,
                self.world,
                c.object,
                c.method,
                true,
            ) {
                Err(e) => self.returning(
                    frames::placed(Err(e), " while dispatching "@, h.place),
                ),
                Ok(index) => self.pushed(
                    FrameView::Callback { value: c.value, place: h.place },
                ).pushed(
                    FrameView::Call { index, args: seq![ValueView::Object(c.object)] + c.args },
                ),
            },
            None => match self.question(h) {
                Some(q) => VmView { status: StatusView::Asking(q), ..self.pushed(
                    FrameView::Host(h),
                ) },
                None => {
                    let (world, r) = self.performed(h);
                    VmView { world, ..self }.returning(
                        frames::placed(r, " while dispatching "@, h.place),
                    )
                },
            },
        }
    }

    pub open spec fn callback(self, h: HostView) -> Option<framework::dispatch::CallbackView> {
        if h.game {
            None
        } else {
            framework::dispatch::callback(h.class_name, h.method, h.args)
        }
    }

    pub open spec fn question(self, h: HostView) -> Option<host::QueryView> {
        if h.game {
            gdx::dispatch::question(self.world, h.class_name, h.method, h.args, h.answers)
        } else {
            framework::dispatch::question(self.world, h.class_name, h.method, h.args, h.answers)
        }
    }

    pub open spec fn performed(self, h: HostView) -> (WorldView, Outcome) {
        if h.game {
            gdx::dispatch::performed(
                self.world,
                self.executed_steps,
                h.class_name,
                h.method,
                h.args,
                h.answers,
            )
        } else {
            framework::dispatch::performed(self.world, h.class_name, h.method, h.args, h.answers)
        }
    }

    /// A result for the uppermost frame.
    #[verifier::opaque]
    pub open spec fn received(self, frame: FrameView, r: Outcome) -> VmView {
        match frame {
            FrameView::Prepared { method, args } => match r {
                Ok(_) => self.begun(method, args),
                Err(_) => self.returning(r),
            },
            FrameView::Code(f) => match (r, f.phase) {
                (Ok(_), Phase::AwaitingClass) => self.pushed(
                    FrameView::Code(CodeView { phase: Phase::Loading, ..f }),
                ),
                (Ok(v), Phase::AwaitingResult) => self.pushed(
                    FrameView::Code(
                        CodeView {
                            activation: ActivationView { result: v, ..f.activation },
                            phase: Phase::Ready,
                            ..f
                        },
                    ),
                ),
                _ => self.ended(f, r),
            },
            FrameView::Callback { value, place } => self.returning(
                frames::placed(
                    match r {
                        Ok(_) => Ok(value),
                        Err(e) => Err(e),
                    },
                    " while dispatching "@,
                    place,
                ),
            ),
            FrameView::Render => VmView {
                world: WorldView { frame_mode: false, ..self.world },
                ..self
            }.returning(r),
            _ => self.returning(r),
        }
    }

    /// What a machine does next. One that is idle, done or asks stays as it is.
    pub open spec fn next(self) -> VmView {
        match self.status {
            StatusView::Running => if self.stack.len() == 0 {
                self.returning(Ok(ValueView::Void))
            } else {
                match self.stack.last() {
                    FrameView::Call { index, args } => self.popped().called(index, args),
                    FrameView::Prepared { method, args } => self.popped().begun(method, args),
                    FrameView::Code(f) => self.popped().code_step(f),
                    FrameView::Host(h) => self.popped().host_step(h),
                    _ => self.returning(Ok(ValueView::Void)),
                }
            },
            StatusView::Returning(r) => if self.stack.len() == 0 {
                VmView { status: StatusView::Done(r), ..self }
            } else {
                self.popped().received(self.stack.last(), r)
            },
            _ => self,
        }
    }

    pub open spec fn active(self) -> bool {
        self.status is Running || self.status is Returning
    }
}

pub open spec fn more(n: usize) -> usize {
    if n < usize::MAX {
        (n + 1) as usize
    } else {
        n
    }
}

fn one_more(n: usize) -> (r: usize)
    ensures
        r == more(n),
{
    if n < usize::MAX {
        n + 1
    } else {
        n
    }
}

// The same, executed.

impl<'a> Vm<'a> {
    fn push(&mut self, frame: Frame<'a>)
        ensures
            final(self)@ == old(self)@.pushed(frame@),
    {
        push_frame(&mut self.stack, frame);
        self.status = Status::Running;
    }

    fn give(&mut self, r: Result<Value, VmError>)
        ensures
            final(self)@ == old(self)@.returning(error::outcome(r)),
    {
        self.status = Status::Returning(r);
    }

    fn fail(&mut self, pc: usize, opcode: u8, message: &str)
        ensures
            final(self)@ == old(self)@.failing(pc, opcode, message@),
    {
        self.give(Err(failure(pc, opcode, message)));
    }

    fn is_initialized(&self, class_name: &str) -> (r: bool)
        ensures
            r == self@.initialized.contains(class_name@),
    {
        let ghost all = self@.initialized;
        let mut i: usize = 0;
        while i < self.initialized_classes.len()
            invariant
                i <= self.initialized_classes.len(),
                all == host::texts(self.initialized_classes@),
                forall|j: int| 0 <= j < i ==> all[j] != class_name@,
            decreases self.initialized_classes.len() - i,
        {
            assert(all[i as int] == self.initialized_classes@[i as int]@);
            if text::same(self.initialized_classes[i].as_str(), class_name) {
                assert(all.contains(class_name@));
                return true;
            }
            i += 1;
        }
        false
    }

    /// Marks a class as initialised, and finds the initialiser that it needs. A class that is
    /// marked needs none, and nothing changes.
    pub fn ensure_class_initialized(&mut self, class_name: &str) -> (r: Option<usize>)
        ensures
            final(self)@ == old(self)@.marked(class_name@),
            dex::some_index(r) == old(self)@.initializer(class_name@),
            final(self)@.initialized.contains(class_name@),
            old(self)@.initialized.contains(class_name@) ==> r is None && final(self)@
                == old(self)@,
    {
        if self.is_initialized(class_name) {
            return None;
        }
        self.initialized_classes.push(class_name.to_owned());
        assert(self@.initialized =~= old(self)@.initialized.push(class_name@));
        assert(self@.initialized.last() == class_name@);
        find_method(self.dex, class_name, "<clinit>", None, false)
    }

    fn note_trace(&mut self, head: String, values: &Vec<Value>)
        ensures
            final(self)@ == (VmView {
                trace: old(self)@.trace.push(
                    seq![
                        PieceView::Text(head@),
                        PieceView::Registers(value::views(values@)),
                    ],
                ),
                ..old(self)@
            }),
    {
        let message: Message = vec![Piece::Text(head), Piece::Registers(copy_values(values))];
        assert(error::message_view(message@) =~= seq![
            PieceView::Text(head@),
            PieceView::Registers(value::views(values@)),
        ]);
        self.trace.push(message);
        assert(self@.trace =~= old(self)@.trace.push(error::message_view(message@)));
    }

    fn trace_call(&mut self, m: &Method, args: &Vec<Value>)
        ensures
            final(self)@ == old(self)@.traced_call(*m, value::views(args@)),
    {
        if self.config.trace_registers {
            let a = text::join3("enter ", m.class_name.as_str(), "->");
            let b = text::join3(a.as_str(), m.name.as_str(), "(");
            let head = text::join3(b.as_str(), m.prototype.as_str(), ") args=");
            self.note_trace(head, args);
        }
    }

    fn call_method(&mut self, index: usize, args: Vec<Value>)
        ensures
            final(self)@ == old(self)@.called(index as nat, value::views(args@)),
    {
        proof {
            reveal(VmView::called);
        }
        if count_code(&self.stack) >= self.config.max_call_depth {
            self.fail(0, 0, "maximum call depth exceeded");
            return;
        }
        let dex: &'a DexFile = self.dex;
        if index >= dex.methods.len() {
            let number = text::decimal_unsigned(index as u64);
            let message = text::join3("method index ", number.as_str(), " is invalid");
            self.give(Err(failure_text(0, 0, message)));
            return;
        }
        let m: &'a Method = &dex.methods[index];
        self.trace_call(m, &args);
        if text::same(m.name.as_str(), "<clinit>") {
            self.begin(m, args);
            return;
        }
        match self.ensure_class_initialized(m.class_name.as_str()) {
            Some(initializer) => {
                self.push(Frame::Prepared { method: m, args });
                let none: Vec<Value> = Vec::new();
                assert(value::views(none@) =~= Seq::empty());
                self.push(Frame::Call { index: initializer, args: none });
            },
            None => self.begin(m, args),
        }
    }

    fn begin(&mut self, m: &'a Method, args: Vec<Value>)
        ensures
            final(self)@ == old(self)@.begun(*m, value::views(args@)),
    {
        proof {
            reveal(VmView::begun);
        }
        match find_route(m) {
            Route::Nothing => self.give(Ok(Value::Void)),
            Route::Code { code, placed } => self.enter_code(m, code, args, placed),
            Route::Host { class_name, game, placed } => {
                let place: Place<'a> = if placed {
                    Some((class_name, m.name.as_str()))
                } else {
                    None
                };
                let answers: Answers = Vec::new();
                assert(host::answers_view(answers@) =~= Seq::empty());
                self.push(
                    Frame::Host(
                        HostFrame {
                            class_name,
                            method: m.name.as_str(),
                            args,
                            answers,
                            game,
                            place,
                        },
                    ),
                );
            },
            Route::Nowhere => {
                let message = text::join3(
                    "method ",
                    m.name.as_str(),
                    " has no code (abstract/native methods are not executable)",
                );
                self.give(Err(failure_text(0, 0, message)));
            },
        }
    }

    fn enter_code(&mut self, m: &'a Method, code: &'a CodeItem, args: Vec<Value>, placed: bool)
        requires
            m.code == Some(*code),
        ensures
            final(self)@ == old(self)@.entered(*m, value::views(args@), placed),
    {
        proof {
            reveal(VmView::entered);
        }
        let place: Place<'a> = if placed {
            Some((m.class_name.as_str(), m.name.as_str()))
        } else {
            None
        };
        let renders = text::same(m.class_name.as_str(), "Lcom/hyperkani/sliceice/Engine;")
            && text::same(m.name.as_str(), "render");
        let mode = renders || self.world.frame_mode;
        let aborted = !renders && self.frame_aborted;
        if mode && aborted {
            self.give(Ok(Value::Void));
            return;
        }
        match enter(code, &args) {
            Err(e) => self.give(place_error(Err(e), " in ", place)),
            Ok(activation) => {
                let restore = if renders {
                    Some((self.world.frame_mode, self.frame_aborted))
                } else {
                    None
                };
                self.world.frame_mode = mode;
                self.frame_aborted = aborted;
                self.push(
                    Frame::Code(
                        CodeFrame { code, activation, phase: Phase::Ready, place, restore },
                    ),
                );
            },
        }
    }

    fn end(&mut self, place: Place<'a>, restore: Option<(bool, bool)>, r: Result<Value, VmError>)
        ensures
            forall|f: CodeView|
                f.place == frames::place_view(place) && f.restore == restore ==> final(self)@
                    == #[trigger] old(self)@.ended(f, error::outcome(r)),
    {
        match restore {
            Some((mode, aborted)) => {
                self.world.frame_mode = mode;
                self.frame_aborted = aborted;
            },
            None => {},
        }
        self.give(place_error(r, " in ", place));
    }

    /// Goes on with a method behind an instruction.
    fn proceed(&mut self, f: CodeFrame<'a>, r: Result<(), VmError>)
        ensures
            forall|before: CodeView, after: Stepped|
                before.words == f@.words && before.place == f@.place && before.restore
                    == f@.restore && after == code::stepped(r, f@.activation) ==> final(self)@
                    == #[trigger] old(self)@.continued(before, after),
    {
        match r {
            Ok(_) => {
                let next = CodeFrame { phase: Phase::Ready, ..f };
                self.push(Frame::Code(next));
            },
            Err(e) => self.end(f.place, f.restore, Err(e)),
        }
    }

    fn count(&mut self)
        ensures
            final(self)@ == old(self)@.counted(),
    {
        if self.world.frame_mode {
            self.frame_steps = one_more(self.frame_steps);
        }
        self.executed_steps = one_more(self.executed_steps);
    }

    fn is_exhausted(&self) -> (r: bool)
        ensures
            r == self@.exhausted(),
    {
        if self.world.frame_mode {
            self.frame_steps >= self.config.max_steps
        } else {
            self.executed_steps >= self.config.max_steps
        }
    }

    fn trace_instruction(&mut self, f: &CodeFrame<'a>, opcode: u8)
        ensures
            final(self)@ == old(self)@.traced_instruction(f@, opcode),
    {
        if self.config.trace_registers {
            let at = text::pad(text::digits_text(f.activation.pc as u64, 10), 4);
            let number = text::pad(text::digits_text(opcode as u64, 16), 2);
            let a = text::join3("pc=", at.as_str(), " opcode=0x");
            let head = text::join3(a.as_str(), number.as_str(), " ");
            self.note_trace(head, &f.activation.registers);
        }
    }

    fn load(&mut self, f: CodeFrame<'a>, opcode: u8, instruction: u16)
        requires
            f.activation.pc < usize::MAX,
        ensures
            final(self)@ == old(self)@.loaded(f@, opcode, instruction),
    {
        proof {
            reveal(VmView::loaded);
        }
        let mut f = f;
        let r = calls::load_static(
            self.dex,
            f.code,
            &self.world,
            &self.static_fields,
            &mut f.activation,
            opcode,
            instruction,
        );
        self.proceed(f, r);
    }

    fn fetch(&mut self, f: CodeFrame<'a>, opcode: u8, instruction: u16)
        requires
            f.activation.pc < usize::MAX,
        ensures
            final(self)@ == old(self)@.fetched(f@, opcode, instruction),
    {
        proof {
            reveal(VmView::fetched);
        }
        let dex: &'a DexFile = self.dex;
        match calls::find_static_class(dex, f.code, &f.activation, opcode) {
            Err(e) => self.end(f.place, f.restore, Err(e)),
            Ok(None) => self.load(f, opcode, instruction),
            Ok(Some(class_name)) => match self.ensure_class_initialized(class_name) {
                Some(initializer) => {
                    let waiting = CodeFrame { phase: Phase::AwaitingClass, ..f };
                    self.push(Frame::Code(waiting));
                    let none: Vec<Value> = Vec::new();
                    assert(value::views(none@) =~= Seq::empty());
                    self.push(Frame::Call { index: initializer, args: none });
                },
                None => self.load(f, opcode, instruction),
            },
        }
    }

    fn invoke(&mut self, f: CodeFrame<'a>, opcode: u8, instruction: u16)
        ensures
            final(self)@ == old(self)@.invoked(f@, opcode, instruction),
    {
        proof {
            reveal(VmView::invoked);
        }
        let mut f = f;
        match calls::find_invocation(
            self.dex,
            f.code,
            &self.world,
            &f.activation,
            opcode,
            instruction,
        ) {
            Err(e) => self.end(f.place, f.restore, Err(e)),
            Ok((index, args)) => {
                f.activation.skip(3);
                let waiting = CodeFrame { phase: Phase::AwaitingResult, ..f };
                self.push(Frame::Code(waiting));
                self.push(Frame::Call { index, args });
            },
        }
    }

    fn execute(&mut self, f: CodeFrame<'a>, opcode: u8, instruction: u16)
        requires
            f.activation.pc < usize::MAX,
        ensures
            final(self)@ == old(self)@.executed(f@, opcode, instruction),
    {
        proof {
            reveal(VmView::executed);
        }
        if 0x0e <= opcode && opcode <= 0x11 {
            let r = moves::return_value(&f.activation, opcode, instruction);
            self.end(f.place, f.restore, r);
        } else if 0x60 <= opcode && opcode <= 0x66 {
            self.fetch(f, opcode, instruction);
        } else if 0x67 <= opcode && opcode <= 0x6d {
            let mut f = f;
            let r = calls::store_static(
                self.dex,
                f.code,
                &mut self.static_fields,
                &mut f.activation,
                opcode,
                instruction,
            );
            self.proceed(f, r);
        } else if (0x6e <= opcode && opcode <= 0x72) || (0x74 <= opcode && opcode <= 0x78) {
            self.invoke(f, opcode, instruction);
        } else {
            let mut f = f;
            let r = execute::execute_plain(
                self.dex,
                f.code,
                &mut self.world,
                &mut f.activation,
                opcode,
                instruction,
            );
            self.proceed(f, r);
        }
    }

    fn execute_code(&mut self, f: CodeFrame<'a>)
        ensures
            final(self)@ == old(self)@.code_step(f@),
    {
        proof {
            reveal(VmView::code_step);
        }
        let pc: usize = f.activation.pc;
        if pc >= f.code.instructions.len() {
            self.end(f.place, f.restore, Ok(Value::Void));
            return;
        }
        let instruction = f.code.instructions[pc];
        let opcode = (instruction % 0x100) as u8;
        match f.phase {
            Phase::Loading => {
                self.load(f, opcode, instruction);
                return;
            },
            _ => {},
        }
        if self.is_exhausted() {
            let mode = self.world.frame_mode;
            self.count();
            if mode {
                self.end(f.place, f.restore, Ok(Value::Void));
            } else {
                let e = failure(pc, 0, "instruction limit exceeded");
                self.end(f.place, f.restore, Err(e));
            }
            return;
        }
        self.count();
        self.trace_instruction(&f, opcode);
        self.execute(f, opcode, instruction);
    }

    fn call_back(&mut self, h: HostFrame<'a>, c: framework::dispatch::Callback)
        requires
            old(self)@.callback(h@) == Some(c@),
        ensures
            final(self)@ == old(self)@.host_step(h@),
    {
        proof {
            reveal(VmView::host_step);
        }
        match calls::find_object_method(
            self.dex,
            &self.world,
            c.object,
            c.method.as_str(),
            true,
        ) {
            Err(e) => self.give(place_error(Err(e), " while dispatching ", h.place)),
            Ok(index) => {
                let args = with_receiver(c.object, c.args);
                self.push(Frame::Callback { value: c.value, place: h.place });
                self.push(Frame::Call { index, args });
            },
        }
    }

    fn run_host(&mut self, h: HostFrame<'a>)
        ensures
            final(self)@ == old(self)@.host_step(h@),
    {
        proof {
            reveal(VmView::host_step);
        }
        if !h.game {
            match framework::dispatch::find_callback(h.class_name, h.method, &h.args) {
                Some(c) => {
                    self.call_back(h, c);
                    return;
                },
                None => {},
            }
        }
        let question = if h.game {
            gdx::dispatch::ask(&self.world, h.class_name, h.method, &h.args, &h.answers)
        } else {
            framework::dispatch::ask(&self.world, h.class_name, h.method, &h.args, &h.answers)
        };
        match question {
            Some(q) => {
                self.push(Frame::Host(h));
                self.status = Status::Asking(q);
            },
            None => {
                let r = if h.game {
                    gdx::dispatch::dispatch_gdx(
                        &mut self.world,
                        self.executed_steps,
                        h.class_name,
                        h.method,
                        &h.args,
                        &h.answers,
                    )
                } else {
                    framework::dispatch::dispatch_framework(
                        &mut self.world,
                        h.class_name,
                        h.method,
                        &h.args,
                        &h.answers,
                    )
                };
                self.give(place_error(r, " while dispatching ", h.place));
            },
        }
    }

    fn receive(&mut self, frame: Frame<'a>, r: Result<Value, VmError>)
        ensures
            final(self)@ == old(self)@.received(frame@, error::outcome(r)),
    {
        proof {
            reveal(VmView::received);
        }
        match frame {
            Frame::Prepared { method, args } => match r {
                Ok(_) => self.begin(method, args),
                Err(e) => self.give(Err(e)),
            },
            Frame::Code(f) => match (r, f.phase) {
                (Ok(_), Phase::AwaitingClass) => {
                    let next = CodeFrame { phase: Phase::Loading, ..f };
                    self.push(Frame::Code(next));
                },
                (Ok(v), Phase::AwaitingResult) => {
                    let mut f = f;
                    f.activation.result = v;
                    let next = CodeFrame { phase: Phase::Ready, ..f };
                    self.push(Frame::Code(next));
                },
                (r, _) => self.end(f.place, f.restore, r),
            },
            Frame::Callback { value, place } => {
                let given = match r {
                    Ok(_) => Ok(value),
                    Err(e) => Err(e),
                };
                self.give(place_error(given, " while dispatching ", place));
            },
            Frame::Render => {
                self.world.frame_mode = false;
                self.give(r);
            },
            _ => self.give(r),
        }
    }

    /// One step.
    pub fn step(&mut self)
        ensures
            final(self)@ == old(self)@.next(),
    {
        let mut status = Status::Running;
        std::mem::swap(&mut self.status, &mut status);
        match status {
            Status::Running => match pop_frame(&mut self.stack) {
                None => self.give(Ok(Value::Void)),
                Some(Frame::Call { index, args }) => self.call_method(index, args),
                Some(Frame::Prepared { method, args }) => self.begin(method, args),
                Some(Frame::Code(f)) => self.execute_code(f),
                Some(Frame::Host(h)) => self.run_host(h),
                Some(frame) => {
                    self.push(frame);
                    assert(self@.stack =~= old(self)@.stack);
                    self.give(Ok(Value::Void));
                },
            },
            Status::Returning(r) => match pop_frame(&mut self.stack) {
                None => {
                    self.status = Status::Done(r);
                },
                Some(frame) => self.receive(frame, r),
            },
            other => {
                self.status = other;
            },
        }
    }
}

pub(crate) fn with_receiver(object: value::ObjectId, args: Vec<Value>) -> (r: Vec<Value>)
    ensures
        value::views(r@) == seq![ValueView::Object(object)] + value::views(args@),
{
    let mut r = args;
    r.insert(0, Value::Object(object));
    assert(value::views(r@) =~= seq![ValueView::Object(object)] + value::views(args@));
    r
}

} // verus!
