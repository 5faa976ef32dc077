//! What the machine asks of the program around it, and what it tells it to do.

use vstd::prelude::*;

use crate::color::Rgba8;
use crate::table;
use crate::value;
use crate::value::{Value, ValueView};

verus! {

/// Functions of floating-point numbers that the surroundings compute.
#[derive(Debug, Clone, Copy, PartialEq, Eq, Structural)]
pub enum Function {
    Sqrt,
    Sin,
    Cos,
    Acos,
    Asin,
    Atan,
    Tan,
    ToRadians,
    ToDegrees,
}

/// How a floating-point number is to be written.
#[derive(Debug, Clone, Copy, PartialEq, Eq, Structural)]
pub enum Style {
    /// As `{}` writes it.
    Plain,
    /// As `{:?}` writes it.
    Debug,
    /// With two digits behind the point.
    Fixed,
}

/// A question to the surroundings.
#[derive(Debug, PartialEq, Eq)]
pub enum Query {
    /// The nanoseconds since some fixed moment.
    Nanoseconds,
    /// A text read as a single.
    ParseSingle(String),
    /// The text of a floating-point value.
    Number { number: Value, style: Style },
    /// The texts of floating-point values, as `{}` writes them.
    Numbers(Vec<Value>),
    Single { function: Function, single: u32 },
    Double { function: Function, double: u64 },
    /// The angle of a point.
    Angle { y: u64, x: u64 },
    /// The width and height of an image asset.
    ImageSize(String),
    /// Whether an image asset can be drawn, and its width and height.
    Image(String),
    /// The contents of an asset.
    Bytes(String),
    /// A named region of a texture atlas.
    Region { atlas: String, name: String },
    /// A new view of a class.
    AllocView(String),
    /// The id of a view.
    ViewId(u32),
    SetContentView { activity: u32, view: u32 },
}

pub enum QueryView {
    Nanoseconds,
    ParseSingle(Seq<char>),
    Number { number: ValueView, style: Style },
    Numbers(Seq<ValueView>),
    Single { function: Function, single: u32 },
    Double { function: Function, double: u64 },
    Angle { y: u64, x: u64 },
    ImageSize(Seq<char>),
    Image(Seq<char>),
    Bytes(Seq<char>),
    Region { atlas: Seq<char>, name: Seq<char> },
    AllocView(Seq<char>),
    ViewId(u32),
    SetContentView { activity: u32, view: u32 },
}

impl View for Query {
    type V = QueryView;

    open spec fn view(&self) -> QueryView {
        match self {
            Query::Nanoseconds => QueryView::Nanoseconds,
            Query::ParseSingle(s) => QueryView::ParseSingle(s@),
            Query::Number { number, style } => QueryView::Number {
                number: number@,
                style: *style,
            },
            Query::Numbers(v) => QueryView::Numbers(value::views(v@)),
            Query::Single { function, single } => QueryView::Single {
                function: *function,
                single: *single,
            },
            Query::Double { function, double } => QueryView::Double {
                function: *function,
                double: *double,
            },
            Query::Angle { y, x } => QueryView::Angle { y: *y, x: *x },
            Query::ImageSize(s) => QueryView::ImageSize(s@),
            Query::Image(s) => QueryView::Image(s@),
            Query::Bytes(s) => QueryView::Bytes(s@),
            Query::Region { atlas, name } => QueryView::Region { atlas: atlas@, name: name@ },
            Query::AllocView(s) => QueryView::AllocView(s@),
            Query::ViewId(v) => QueryView::ViewId(*v),
            Query::SetContentView { activity, view } => QueryView::SetContentView {
                activity: *activity,
                view: *view,
            },
        }
    }
}

pub open spec fn asked(q: Option<Query>) -> Option<QueryView> {
    match q {
        Some(q) => Some(q@),
        None => None,
    }
}

/// What a framework method gives.
#[derive(Debug, PartialEq, Eq)]
pub enum FrameworkResult {
    Void,
    Int(i32),
    Long(i64),
    Float(u32),
    Bool(bool),
    Object(u32),
    String(String),
}

pub enum FrameworkResultView {
    Void,
    Int(i32),
    Long(i64),
    Float(u32),
    Bool(bool),
    Object(u32),
    String(Seq<char>),
}

impl View for FrameworkResult {
    type V = FrameworkResultView;

    open spec fn view(&self) -> FrameworkResultView {
        match self {
            FrameworkResult::Void => FrameworkResultView::Void,
            FrameworkResult::Int(v) => FrameworkResultView::Int(*v),
            FrameworkResult::Long(v) => FrameworkResultView::Long(*v),
            FrameworkResult::Float(v) => FrameworkResultView::Float(*v),
            FrameworkResult::Bool(v) => FrameworkResultView::Bool(*v),
            FrameworkResult::Object(v) => FrameworkResultView::Object(*v),
            FrameworkResult::String(v) => FrameworkResultView::String(v@),
        }
    }
}

/// A framework result as a value: object 0 is no object.
pub open spec fn lifted(r: FrameworkResultView) -> ValueView {
    match r {
        FrameworkResultView::Void => ValueView::Void,
        FrameworkResultView::Int(v) => ValueView::Int(v),
        FrameworkResultView::Long(v) => ValueView::Long(v),
        FrameworkResultView::Float(v) => ValueView::Float(v),
        FrameworkResultView::Bool(v) => ValueView::Int(if v {
            1
        } else {
            0
        }),
        FrameworkResultView::Object(v) => if v == 0 {
            ValueView::Null
        } else {
            ValueView::Object(v)
        },
        FrameworkResultView::String(v) => ValueView::String(v),
    }
}

pub fn lift(r: &FrameworkResult) -> (v: Value)
    ensures
        v@ == lifted(r@),
{
    match r {
        FrameworkResult::Void => Value::Void,
        FrameworkResult::Int(v) => Value::Int(*v),
        FrameworkResult::Long(v) => Value::Long(*v),
        FrameworkResult::Float(v) => Value::Float(*v),
        FrameworkResult::Bool(v) => Value::Int(
            if *v {
                1
            } else {
                0
            },
        ),
        FrameworkResult::Object(v) => if *v == 0 {
            Value::Null
        } else {
            Value::Object(*v)
        },
        FrameworkResult::String(v) => Value::String(v.clone()),
    }
}

/// A region of a texture atlas: the page it is on, and where.
#[derive(Debug, PartialEq, Eq)]
pub struct Region {
    pub page: String,
    pub x: u32,
    pub y: u32,
    pub width: u32,
    pub height: u32,
}

pub struct RegionView {
    pub page: Seq<char>,
    pub x: u32,
    pub y: u32,
    pub width: u32,
    pub height: u32,
}

impl View for Region {
    type V = RegionView;

    open spec fn view(&self) -> RegionView {
        RegionView {
            page: self.page@,
            x: self.x,
            y: self.y,
            width: self.width,
            height: self.height,
        }
    }
}

/// An answer of the surroundings.
#[derive(Debug, PartialEq, Eq)]
pub enum Answer {
    Nanoseconds(u64),
    Parsed(Option<u32>),
    Text(String),
    Texts(Vec<String>),
    Single(u32),
    Double(u64),
    Size(Option<(u32, u32)>),
    Bytes(Option<Vec<u8>>),
    Region(Option<Region>),
    View(u32),
    ViewId(Option<i32>),
    Framework(Result<FrameworkResult, String>),
}

pub enum AnswerView {
    Nanoseconds(u64),
    Parsed(Option<u32>),
    Text(Seq<char>),
    Texts(Seq<Seq<char>>),
    Single(u32),
    Double(u64),
    Size(Option<(u32, u32)>),
    Bytes(Option<Seq<u8>>),
    Region(Option<RegionView>),
    View(u32),
    ViewId(Option<i32>),
    Framework(Result<FrameworkResultView, Seq<char>>),
}

pub open spec fn texts(all: Seq<String>) -> Seq<Seq<char>> {
    all.map_values(|s: String| s@)
}

impl View for Answer {
    type V = AnswerView;

    open spec fn view(&self) -> AnswerView {
        match self {
            Answer::Nanoseconds(v) => AnswerView::Nanoseconds(*v),
            Answer::Parsed(v) => AnswerView::Parsed(*v),
            Answer::Text(s) => AnswerView::Text(s@),
            Answer::Texts(s) => AnswerView::Texts(texts(s@)),
            Answer::Single(v) => AnswerView::Single(*v),
            Answer::Double(v) => AnswerView::Double(*v),
            Answer::Size(v) => AnswerView::Size(*v),
            Answer::Bytes(v) => AnswerView::Bytes(
                match v {
                    Some(b) => Some(b@),
                    None => None,
                },
            ),
            Answer::Region(v) => AnswerView::Region(
                match v {
                    Some(r) => Some(r@),
                    None => None,
                },
            ),
            Answer::View(v) => AnswerView::View(*v),
            Answer::ViewId(v) => AnswerView::ViewId(*v),
            Answer::Framework(r) => AnswerView::Framework(
                match r {
                    Ok(v) => Ok(v@),
                    Err(s) => Err(s@),
                },
            ),
        }
    }
}

/// Whether an answer is one to a question.
pub open spec fn answers(question: QueryView, answer: AnswerView) -> bool {
    match question {
        QueryView::Nanoseconds => answer is Nanoseconds,
        QueryView::ParseSingle(_) => answer is Parsed,
        QueryView::Number { .. } => answer is Text,
        QueryView::Numbers(_) => answer is Texts,
        QueryView::Single { .. } => answer is Single,
        QueryView::Double { .. } => answer is Double,
        QueryView::Angle { .. } => answer is Double,
        QueryView::ImageSize(_) => answer is Size,
        QueryView::Image(_) => answer is Size,
        QueryView::Bytes(_) => answer is Bytes,
        QueryView::Region { .. } => answer is Region,
        QueryView::AllocView(_) => answer is View,
        QueryView::ViewId(_) => answer is ViewId,
        QueryView::SetContentView { .. } => answer is Framework,
    }
}

pub fn does_answer(question: &Query, answer: &Answer) -> (r: bool)
    ensures
        r == answers(question@, answer@),
{
    match (question, answer) {
        (Query::Nanoseconds, Answer::Nanoseconds(_)) => true,
        (Query::ParseSingle(_), Answer::Parsed(_)) => true,
        (Query::Number { .. }, Answer::Text(_)) => true,
        (Query::Numbers(_), Answer::Texts(_)) => true,
        (Query::Single { .. }, Answer::Single(_)) => true,
        (Query::Double { .. }, Answer::Double(_)) => true,
        (Query::Angle { .. }, Answer::Double(_)) => true,
        (Query::ImageSize(_), Answer::Size(_)) => true,
        (Query::Image(_), Answer::Size(_)) => true,
        (Query::Bytes(_), Answer::Bytes(_)) => true,
        (Query::Region { .. }, Answer::Region(_)) => true,
        (Query::AllocView(_), Answer::View(_)) => true,
        (Query::ViewId(_), Answer::ViewId(_)) => true,
        (Query::SetContentView { .. }, Answer::Framework(_)) => true,
        _ => false,
    }
}

pub type Answers = Vec<Answer>;

pub open spec fn answers_view(all: Seq<Answer>) -> Seq<AnswerView> {
    all.map_values(|a: Answer| a@)
}

pub fn push_answer(all: &mut Answers, answer: Answer)
    ensures
        answers_view(final(all)@) == answers_view(old(all)@).push(answer@),
{
    all.push(answer);
    assert(answers_view(all@) =~= answers_view(old(all)@).push(answer@));
}

// Reading the first answer, and where a drawing needs two, the second.

pub open spec fn text_in(all: Seq<AnswerView>, index: int) -> Seq<char> {
    if 0 <= index < all.len() && all[index] is Text {
        all[index]->Text_0
    } else {
        Seq::empty()
    }
}

pub fn get_text(all: &Answers, index: usize) -> (r: String)
    ensures
        r@ == text_in(answers_view(all@), index as int),
{
    if index < all.len() {
        match &all[index] {
            Answer::Text(s) => s.clone(),
            _ => String::new(),
        }
    } else {
        String::new()
    }
}

pub open spec fn number_in(all: Seq<AnswerView>) -> u64 {
    if all.len() > 0 && all[0] is Nanoseconds {
        all[0]->Nanoseconds_0
    } else {
        0
    }
}

pub fn get_nanoseconds(all: &Answers) -> (r: u64)
    ensures
        r == number_in(answers_view(all@)),
{
    if all.len() > 0 {
        match &all[0] {
            Answer::Nanoseconds(n) => *n,
            _ => 0,
        }
    } else {
        0
    }
}

pub open spec fn parsed_in(all: Seq<AnswerView>) -> Option<u32> {
    if all.len() > 0 && all[0] is Parsed {
        all[0]->Parsed_0
    } else {
        None
    }
}

pub fn get_parsed(all: &Answers) -> (r: Option<u32>)
    ensures
        r == parsed_in(answers_view(all@)),
{
    if all.len() > 0 {
        match &all[0] {
            Answer::Parsed(n) => *n,
            _ => None,
        }
    } else {
        None
    }
}

pub open spec fn single_in(all: Seq<AnswerView>) -> u32 {
    if all.len() > 0 && all[0] is Single {
        all[0]->Single_0
    } else {
        0
    }
}

pub fn get_single(all: &Answers) -> (r: u32)
    ensures
        r == single_in(answers_view(all@)),
{
    if all.len() > 0 {
        match &all[0] {
            Answer::Single(n) => *n,
            _ => 0,
        }
    } else {
        0
    }
}

pub open spec fn double_in(all: Seq<AnswerView>) -> u64 {
    if all.len() > 0 && all[0] is Double {
        all[0]->Double_0
    } else {
        0
    }
}

pub fn get_double(all: &Answers) -> (r: u64)
    ensures
        r == double_in(answers_view(all@)),
{
    if all.len() > 0 {
        match &all[0] {
            Answer::Double(n) => *n,
            _ => 0,
        }
    } else {
        0
    }
}

pub open spec fn size_in(all: Seq<AnswerView>, index: int) -> Option<(u32, u32)> {
    if 0 <= index < all.len() && all[index] is Size {
        all[index]->Size_0
    } else {
        None
    }
}

pub fn get_size(all: &Answers, index: usize) -> (r: Option<(u32, u32)>)
    ensures
        r == size_in(answers_view(all@), index as int),
{
    if index < all.len() {
        match &all[index] {
            Answer::Size(n) => *n,
            _ => None,
        }
    } else {
        None
    }
}

pub open spec fn bytes_in(all: Seq<AnswerView>) -> Option<Seq<u8>> {
    if all.len() > 0 && all[0] is Bytes {
        all[0]->Bytes_0
    } else {
        None
    }
}

pub fn get_bytes(all: &Answers) -> (r: Option<&Vec<u8>>)
    ensures
        table::seen(r) == bytes_in(answers_view(all@)),
{
    if all.len() > 0 {
        match &all[0] {
            Answer::Bytes(Some(b)) => Some(b),
            _ => None,
        }
    } else {
        None
    }
}

pub open spec fn region_in(all: Seq<AnswerView>) -> Option<RegionView> {
    if all.len() > 0 && all[0] is Region {
        all[0]->Region_0
    } else {
        None
    }
}

pub fn get_region(all: &Answers) -> (r: Option<&Region>)
    ensures
        table::seen(r) == region_in(answers_view(all@)),
{
    if all.len() > 0 {
        match &all[0] {
            Answer::Region(Some(b)) => Some(b),
            _ => None,
        }
    } else {
        None
    }
}

pub open spec fn view_in(all: Seq<AnswerView>) -> u32 {
    if all.len() > 0 && all[0] is View {
        all[0]->View_0
    } else {
        0
    }
}

pub fn get_view(all: &Answers) -> (r: u32)
    ensures
        r == view_in(answers_view(all@)),
{
    if all.len() > 0 {
        match &all[0] {
            Answer::View(n) => *n,
            _ => 0,
        }
    } else {
        0
    }
}

pub open spec fn view_id_in(all: Seq<AnswerView>) -> Option<i32> {
    if all.len() > 0 && all[0] is ViewId {
        all[0]->ViewId_0
    } else {
        None
    }
}

pub fn get_view_id(all: &Answers) -> (r: Option<i32>)
    ensures
        r == view_id_in(answers_view(all@)),
{
    if all.len() > 0 {
        match &all[0] {
            Answer::ViewId(n) => *n,
            _ => None,
        }
    } else {
        None
    }
}

// Effects.

/// A rectangle in pixels; each part is a single.
#[derive(Debug, Clone, Copy, PartialEq, Eq, Structural)]
pub struct Bounds {
    pub x: u32,
    pub y: u32,
    pub width: u32,
    pub height: u32,
}

/// The corners of a part of a texture, each part between 0 and 1; singles.
#[derive(Debug, Clone, Copy, PartialEq, Eq, Structural)]
pub struct Corners {
    pub left: u32,
    pub top: u32,
    pub right: u32,
    pub bottom: u32,
}

/// Something that the surroundings are to do. `DrawTexture` and `DrawRegion` draw the image
/// uploaded last.
#[derive(Debug, PartialEq, Eq)]
pub enum Effect {
    Sleep(u64),
    EnsureView { view: u32, class_name: String },
    SetViewId { view: u32, id: i32 },
    AddChild { parent: u32, child: u32 },
    ClearColor(Rgba8),
    Clear(u32),
    Enable(u32),
    Disable(u32),
    BlendFunc(u32, u32),
    BindTexture(u32, u32),
    Viewport(i32, i32, u32, u32),
    DrawArrays(u32, i32, i32),
    DrawElements(u32, i32, u32),
    UploadImage(String),
    DrawTexture { bounds: Bounds, color: Rgba8 },
    DrawRegion { bounds: Bounds, corners: Corners, color: Rgba8 },
    DrawQuad { bounds: Bounds, color: Rgba8 },
}

pub enum EffectView {
    Sleep(u64),
    EnsureView { view: u32, class_name: Seq<char> },
    SetViewId { view: u32, id: i32 },
    AddChild { parent: u32, child: u32 },
    ClearColor(Rgba8),
    Clear(u32),
    Enable(u32),
    Disable(u32),
    BlendFunc(u32, u32),
    BindTexture(u32, u32),
    Viewport(i32, i32, u32, u32),
    DrawArrays(u32, i32, i32),
    DrawElements(u32, i32, u32),
    UploadImage(Seq<char>),
    DrawTexture { bounds: Bounds, color: Rgba8 },
    DrawRegion { bounds: Bounds, corners: Corners, color: Rgba8 },
    DrawQuad { bounds: Bounds, color: Rgba8 },
}

impl View for Effect {
    type V = EffectView;

    open spec fn view(&self) -> EffectView {
        match self {
            Effect::Sleep(ms) => EffectView::Sleep(*ms),
            Effect::EnsureView { view, class_name } => EffectView::EnsureView {
                view: *view,
                class_name: class_name@,
            },
            Effect::SetViewId { view, id } => EffectView::SetViewId { view: *view, id: *id },
            Effect::AddChild { parent, child } => EffectView::AddChild {
                parent: *parent,
                child: *child,
            },
            Effect::ClearColor(c) => EffectView::ClearColor(*c),
            Effect::Clear(a) => EffectView::Clear(*a),
            Effect::Enable(a) => EffectView::Enable(*a),
            Effect::Disable(a) => EffectView::Disable(*a),
            Effect::BlendFunc(a, b) => EffectView::BlendFunc(*a, *b),
            Effect::BindTexture(a, b) => EffectView::BindTexture(*a, *b),
            Effect::Viewport(a, b, c, d) => EffectView::Viewport(*a, *b, *c, *d),
            Effect::DrawArrays(a, b, c) => EffectView::DrawArrays(*a, *b, *c),
            Effect::DrawElements(a, b, c) => EffectView::DrawElements(*a, *b, *c),
            Effect::UploadImage(s) => EffectView::UploadImage(s@),
            Effect::DrawTexture { bounds, color } => EffectView::DrawTexture {
                bounds: *bounds,
                color: *color,
            },
            Effect::DrawRegion { bounds, corners, color } => EffectView::DrawRegion {
                bounds: *bounds,
                corners: *corners,
                color: *color,
            },
            Effect::DrawQuad { bounds, color } => EffectView::DrawQuad {
                bounds: *bounds,
                color: *color,
            },
        }
    }
}

pub open spec fn effects_view(all: Seq<Effect>) -> Seq<EffectView> {
    all.map_values(|e: Effect| e@)
}

} // verus!
