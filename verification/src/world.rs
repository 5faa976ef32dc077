//! What a running program can reach: the heap, the framework's data, the canvas and the
//! listeners.

use vstd::prelude::*;

use crate::convert;
use crate::convert::unfit_argument;
use crate::error;
use crate::error::{failure_about, failure_text, ErrorView, VmError};
use crate::float;
use crate::host;
use crate::host::{Effect, EffectView};
use crate::table;
use crate::table::{get_named, put_named};
use crate::text;
use crate::value;
use crate::value::{value_at, Fields, HeapObject, ObjectId, ObjectView, Value, ValueView};

verus! {

/// Where a canvas draws: an offset and a scale, as singles.
#[derive(Debug, Clone, Copy, PartialEq, Eq, Structural)]
pub struct CanvasState {
    pub x: u32,
    pub y: u32,
    pub scale_x: u32,
    pub scale_y: u32,
}

pub open spec fn plain_canvas() -> CanvasState {
    CanvasState { x: 0, y: 0, scale_x: 0x3f80_0000, scale_y: 0x3f80_0000 }
}

impl Default for CanvasState {
    fn default() -> (r: Self)
        ensures
            r == plain_canvas(),
    {
        CanvasState { x: 0, y: 0, scale_x: 0x3f80_0000, scale_y: 0x3f80_0000 }
    }
}

#[derive(Debug, Clone, Copy, PartialEq, Eq, Structural)]
pub struct MediaPlayerState {
    pub prepared: bool,
    pub playing: bool,
    pub looping: bool,
    pub position_ms: i32,
}

pub open spec fn idle_player() -> MediaPlayerState {
    MediaPlayerState { prepared: false, playing: false, looping: false, position_ms: 0 }
}

impl Default for MediaPlayerState {
    fn default() -> (r: Self)
        ensures
            r == idle_player(),
    {
        MediaPlayerState { prepared: false, playing: false, looping: false, position_ms: 0 }
    }
}

/// The data of the framework.
#[derive(Debug)]
pub struct Framework {
    pub surface_size: (i32, i32),
    pub logs: Vec<String>,
    pub preferences: Vec<((String, String), String)>,
    pub files: Vec<(String, Vec<u8>)>,
    pub system_services: Vec<(String, u32)>,
    pub content_views: Vec<(u32, u32)>,
    pub media_players: Vec<(u32, MediaPlayerState)>,
    pub surface_events: Vec<String>,
    pub resource_strings: Vec<(u32, String)>,
    pub resource_images: Vec<(u32, String)>,
    pub gdx_view: Option<u32>,
    pub gdx_listener: Option<u32>,
    pub gdx_input: Option<u32>,
    pub gdx_audio: Option<u32>,
    pub gdx_files: Option<u32>,
    pub gdx_graphics: Option<u32>,
}

pub struct FrameworkView {
    pub surface_size: (i32, i32),
    pub logs: Seq<Seq<char>>,
    pub preferences: Seq<((Seq<char>, Seq<char>), Seq<char>)>,
    pub files: Seq<(Seq<char>, Seq<u8>)>,
    pub system_services: Seq<(Seq<char>, u32)>,
    pub content_views: Seq<(u32, u32)>,
    pub media_players: Seq<(u32, MediaPlayerState)>,
    pub surface_events: Seq<Seq<char>>,
    pub resource_strings: Seq<(u32, Seq<char>)>,
    pub resource_images: Seq<(u32, Seq<char>)>,
    pub gdx_view: Option<u32>,
    pub gdx_listener: Option<u32>,
    pub gdx_input: Option<u32>,
    pub gdx_audio: Option<u32>,
    pub gdx_files: Option<u32>,
    pub gdx_graphics: Option<u32>,
}

pub open spec fn numbered_texts(entries: Seq<(u32, String)>) -> Seq<(u32, Seq<char>)> {
    entries.map_values(|e: (u32, String)| (e.0, e.1@))
}

pub open spec fn preference_texts(entries: Seq<((String, String), String)>) -> Seq<
    ((Seq<char>, Seq<char>), Seq<char>),
> {
    entries.map_values(|e: ((String, String), String)| ((e.0.0@, e.0.1@), e.1@))
}

impl View for Framework {
    type V = FrameworkView;

    open spec fn view(&self) -> FrameworkView {
        FrameworkView {
            surface_size: self.surface_size,
            logs: host::texts(self.logs@),
            preferences: preference_texts(self.preferences@),
            files: table::named(self.files@),
            system_services: table::named(self.system_services@),
            content_views: self.content_views@,
            media_players: self.media_players@,
            surface_events: host::texts(self.surface_events@),
            resource_strings: numbered_texts(self.resource_strings@),
            resource_images: numbered_texts(self.resource_images@),
            gdx_view: self.gdx_view,
            gdx_listener: self.gdx_listener,
            gdx_input: self.gdx_input,
            gdx_audio: self.gdx_audio,
            gdx_files: self.gdx_files,
            gdx_graphics: self.gdx_graphics,
        }
    }
}

#[derive(Debug)]
pub struct World {
    pub framework: Framework,
    pub heap: Vec<HeapObject>,
    pub canvas_stack: Vec<CanvasState>,
    pub canvas_state: CanvasState,
    pub touch_listeners: Vec<(ObjectId, ObjectId)>,
    pub click_listeners: Vec<(ObjectId, ObjectId)>,
    pub pending_activity: Option<(String, ObjectId)>,
    pub effects: Vec<Effect>,
    pub frame_mode: bool,
}

pub struct WorldView {
    pub framework: FrameworkView,
    pub heap: Seq<ObjectView>,
    pub canvas_stack: Seq<CanvasState>,
    pub canvas_state: CanvasState,
    pub touch_listeners: Seq<(ObjectId, ObjectId)>,
    pub click_listeners: Seq<(ObjectId, ObjectId)>,
    pub pending_activity: Option<(Seq<char>, ObjectId)>,
    pub effects: Seq<EffectView>,
    pub frame_mode: bool,
}

pub open spec fn activity_view(a: Option<(String, ObjectId)>) -> Option<(Seq<char>, ObjectId)> {
    match a {
        Some((name, id)) => Some((name@, id)),
        None => None,
    }
}

impl View for World {
    type V = WorldView;

    open spec fn view(&self) -> WorldView {
        WorldView {
            framework: self.framework@,
            heap: value::heap_view(self.heap@),
            canvas_stack: self.canvas_stack@,
            canvas_state: self.canvas_state,
            touch_listeners: self.touch_listeners@,
            click_listeners: self.click_listeners@,
            pending_activity: activity_view(self.pending_activity),
            effects: host::effects_view(self.effects@),
            frame_mode: self.frame_mode,
        }
    }
}

/// What a method of the framework does: the world after it, and what it gives.
pub type Effected = (WorldView, Result<ValueView, ErrorView>);

pub open spec fn instance_of(class_name: Seq<char>) -> ObjectView {
    ObjectView::Instance { class_name, fields: Seq::empty() }
}

impl WorldView {
    pub open spec fn object(self, id: ObjectId) -> Option<ObjectView> {
        if id < self.heap.len() {
            Some(self.heap[id as int])
        } else {
            None
        }
    }

    /// The number of the next object.
    pub open spec fn fresh(self) -> ObjectId {
        self.heap.len() as ObjectId
    }

    pub open spec fn with_object(self, object: ObjectView) -> WorldView {
        WorldView { heap: self.heap.push(object), ..self }
    }

    /// The world with another object under a number; the same where there is no such object.
    pub open spec fn replaced(self, id: ObjectId, object: ObjectView) -> WorldView {
        if id < self.heap.len() {
            WorldView { heap: self.heap.update(id as int, object), ..self }
        } else {
            self
        }
    }

    pub open spec fn class_of(self, id: ObjectId) -> Option<Seq<char>> {
        match self.object(id) {
            Some(ObjectView::Instance { class_name, .. }) => Some(class_name),
            _ => None,
        }
    }

    /// A field of an instance.
    pub open spec fn field(self, id: ObjectId, name: Seq<char>) -> Option<ValueView> {
        match self.object(id) {
            Some(ObjectView::Instance { fields, .. }) => table::lookup(fields, name),
            _ => None,
        }
    }

    /// The world with a field of an instance set; the same where the object is no instance.
    pub open spec fn with_field(self, id: ObjectId, name: Seq<char>, value: ValueView) -> WorldView {
        match self.object(id) {
            Some(ObjectView::Instance { class_name, fields }) => self.replaced(
                id,
                ObjectView::Instance { class_name, fields: table::store(fields, name, value) },
            ),
            _ => self,
        }
    }

    pub open spec fn field_int(self, id: ObjectId, name: Seq<char>) -> Option<i32> {
        match self.field(id, name) {
            Some(ValueView::Int(v)) => Some(v),
            Some(ValueView::Long(v)) => Some(v as i32),
            _ => None,
        }
    }

    pub open spec fn field_single(self, id: ObjectId, name: Seq<char>) -> Option<u32> {
        match self.field(id, name) {
            Some(ValueView::Float(v)) => Some(v),
            Some(ValueView::Double(v)) => Some(float::double_as_single(v)),
            Some(ValueView::Int(v)) => Some(float::int_as_single(v as int)),
            _ => None,
        }
    }

    /// The text that a value is, or that it refers to.
    pub open spec fn text_value(self, value: Option<ValueView>) -> Option<Seq<char>> {
        match value {
            Some(ValueView::String(s)) => Some(s),
            Some(ValueView::Object(id)) => match self.object(id) {
                Some(ObjectView::String(s)) => Some(s),
                _ => None,
            },
            _ => None,
        }
    }

    pub open spec fn field_text(self, id: ObjectId, name: Seq<char>) -> Option<Seq<char>> {
        self.text_value(self.field(id, name))
    }

    pub open spec fn field_object(self, id: ObjectId, name: Seq<char>) -> Option<ObjectId> {
        match self.field(id, name) {
            Some(ValueView::Object(v)) => Some(v),
            _ => None,
        }
    }

    /// The name of a class object, or of a string that names one.
    pub open spec fn class_named(self, value: Option<ValueView>) -> Option<Seq<char>> {
        match value {
            Some(ValueView::Object(id)) => match self.object(id) {
                Some(ObjectView::Class(s)) => Some(s),
                Some(ObjectView::String(s)) => Some(s),
                _ => None,
            },
            _ => None,
        }
    }

    /// A value read as a string argument: a string, a string object, or an object with a
    /// `path`.
    pub open spec fn text_arg(self, value: Option<ValueView>, index: int) -> Result<
        Seq<char>,
        ErrorView,
    > {
        match value {
            Some(ValueView::String(s)) => Ok(s),
            Some(ValueView::Object(id)) => match self.object(id) {
                Some(ObjectView::String(s)) => Ok(s),
                Some(ObjectView::Instance { .. }) => match self.field_text(id, "path"@) {
                    Some(s) => Ok(s),
                    None => Err(misfit(index, id, ", expected a path string"@)),
                },
                _ => Err(misfit(index, id, ", expected java.lang.String"@)),
            },
            _ => Err(convert::unfit(index, " is not a string"@)),
        }
    }

    /// The string argument at an index; empty where there is none.
    pub open spec fn text_at(self, args: Seq<ValueView>, index: int) -> Seq<char> {
        match self.text_arg(value::at(args, index), index) {
            Ok(s) => s,
            Err(_) => Seq::empty(),
        }
    }

    /// The number that an argument is or boxes.
    pub open spec fn unboxed(self, args: Seq<ValueView>, index: int) -> Result<
        ValueView,
        ErrorView,
    > {
        match value::at(args, index) {
            Some(ValueView::Object(id)) => match self.object(id) {
                Some(ObjectView::Boxed(v)) => Ok(v),
                Some(ObjectView::Instance { .. }) => match self.field(id, "value"@) {
                    Some(v) => Ok(v),
                    None => Err(misfit(index, id, ", expected boxed primitive"@)),
                },
                _ => Err(misfit(index, id, ", expected boxed primitive"@)),
            },
            Some(ValueView::String(s)) => Err(
                error::fault_about(
                    0,
                    0,
                    "framework argument "@ + text::decimal(index) + " is not a boxed primitive: "@,
                    ValueView::String(s),
                ),
            ),
            Some(ValueView::Null) => Ok(ValueView::Int(0)),
            Some(ValueView::Void) => Ok(ValueView::Int(0)),
            None => Ok(ValueView::Int(0)),
            Some(v) => Ok(v),
        }
    }

    pub open spec fn logged(self, line: Seq<char>) -> WorldView {
        WorldView {
            framework: FrameworkView {
                logs: self.framework.logs.push(line),
                ..self.framework
            },
            ..self
        }
    }

    pub open spec fn did(self, effect: EffectView) -> WorldView {
        WorldView { effects: self.effects.push(effect), ..self }
    }

    /// A field copied from one object to another, where the first one has it.
    pub open spec fn copied_field(
        self,
        source: ObjectId,
        destination: ObjectId,
        name: Seq<char>,
    ) -> WorldView {
        match self.field(source, name) {
            Some(v) => self.with_field(destination, name, v),
            None => self,
        }
    }

    /// The fields by which something is drawn, copied from one object to another.
    #[verifier::opaque]
    pub open spec fn copied_drawable(self, source: ObjectId, destination: ObjectId) -> WorldView {
        self.copied_field(source, destination, "asset_path"@).copied_field(
            source,
            destination,
            "path"@,
        ).copied_field(source, destination, "region_x"@).copied_field(
            source,
            destination,
            "region_y"@,
        ).copied_field(source, destination, "region_width"@).copied_field(
            source,
            destination,
            "region_height"@,
        ).copied_field(source, destination, "width"@).copied_field(
            source,
            destination,
            "height"@,
        )
    }

    pub open spec fn bitmap(self, width: i32, height: i32) -> WorldView {
        let id = self.fresh();
        self.with_object(instance_of("Landroid/graphics/Bitmap;"@)).with_field(
            id,
            "width"@,
            ValueView::Int(float::larger(width as int, 1) as i32),
        ).with_field(id, "height"@, ValueView::Int(float::larger(height as int, 1) as i32))
    }
}

pub open spec fn misfit(index: int, id: ObjectId, kind: Seq<char>) -> ErrorView {
    error::fault(
        0,
        0,
        "framework argument "@ + text::decimal(index) + " is object "@ + text::decimal(id as int)
            + kind,
    )
}

fn misfit_argument(index: usize, id: ObjectId, kind: &str) -> (r: VmError)
    ensures
        r@ == misfit(index as int, id, kind@),
{
    let a = text::join3(
        "framework argument ",
        text::decimal_unsigned(index as u64).as_str(),
        " is object ",
    );
    failure_text(
        0,
        0,
        text::join3(a.as_str(), text::decimal_unsigned(id as u64).as_str(), kind),
    )
}

pub open spec fn some_string(r: Option<String>) -> Option<Seq<char>> {
    match r {
        Some(s) => Some(s@),
        None => None,
    }
}

pub open spec fn string_result(r: Result<String, VmError>) -> Result<Seq<char>, ErrorView> {
    match r {
        Ok(s) => Ok(s@),
        Err(e) => Err(e@),
    }
}

pub fn push_text(all: &mut Vec<String>, line: String)
    ensures
        host::texts(final(all)@) == host::texts(old(all)@).push(line@),
{
    all.push(line);
    assert(host::texts(all@) =~= host::texts(old(all)@).push(line@));
}

pub fn max_int(a: i32, b: i32) -> (r: i32)
    ensures
        r == float::larger(a as int, b as int),
{
    if a > b {
        a
    } else {
        b
    }
}

impl World {
    pub fn heap_object(&self, id: ObjectId) -> (r: Option<&HeapObject>)
        ensures
            table::seen(r) == self@.object(id),
    {
        if (id as usize) < self.heap.len() {
            Some(&self.heap[id as usize])
        } else {
            None
        }
    }

    pub fn allocate(&mut self, object: HeapObject) -> (r: ObjectId)
        ensures
            r == old(self)@.fresh(),
            final(self)@ == old(self)@.with_object(object@),
    {
        let id = self.heap.len() as ObjectId;
        self.heap.push(object);
        assert(value::heap_view(self.heap@) =~= value::heap_view(old(self).heap@).push(object@));
        id
    }

    pub fn alloc_instance(&mut self, class_name: &str) -> (r: ObjectId)
        ensures
            r == old(self)@.fresh(),
            final(self)@ == old(self)@.with_object(instance_of(class_name@)),
    {
        let fields: Fields = Vec::new();
        assert(table::named(fields@) =~= Seq::empty());
        self.allocate(HeapObject::Instance { class_name: class_name.to_owned(), fields })
    }

    pub fn alloc_string(&mut self, text: String) -> (r: ObjectId)
        ensures
            r == old(self)@.fresh(),
            final(self)@ == old(self)@.with_object(ObjectView::String(text@)),
    {
        self.allocate(HeapObject::String(text))
    }

    pub fn alloc_collection(&mut self) -> (r: ObjectId)
        ensures
            r == old(self)@.fresh(),
            final(self)@ == old(self)@.with_object(ObjectView::Collection(Seq::empty())),
    {
        let values: Vec<Value> = Vec::new();
        assert(value::views(values@) =~= Seq::empty());
        self.allocate(HeapObject::Collection(values))
    }

    pub fn replace(&mut self, id: ObjectId, object: HeapObject)
        ensures
            final(self)@ == old(self)@.replaced(id, object@),
    {
        if (id as usize) < self.heap.len() {
            self.heap.set(id as usize, object);
            assert(value::heap_view(self.heap@) =~= value::heap_view(old(self).heap@).update(
                id as int,
                object@,
            ));
        }
    }

    pub fn class_name(&self, id: ObjectId) -> (r: Option<&str>)
        ensures
            crate::dex::some_text(r) == self@.class_of(id),
    {
        match self.heap_object(id) {
            Some(HeapObject::Instance { class_name, .. }) => Some(class_name.as_str()),
            _ => None,
        }
    }

    pub fn field(&self, id: ObjectId, name: &str) -> (r: Option<&Value>)
        ensures
            value::maybe(r) == self@.field(id, name@),
    {
        match self.heap_object(id) {
            Some(HeapObject::Instance { fields, .. }) => get_named(fields, name),
            _ => None,
        }
    }

    pub fn set_object_field(&mut self, id: ObjectId, name: &str, value: Value)
        ensures
            final(self)@ == old(self)@.with_field(id, name@, value@),
    {
        if (id as usize) < self.heap.len() {
            match &mut self.heap[id as usize] {
                HeapObject::Instance { fields, .. } => {
                    put_named(fields, name, value);
                },
                _ => {},
            }
            assert(value::heap_view(self.heap@) =~= old(self)@.with_field(
                id,
                name@,
                value@,
            ).heap);
        }
    }

    pub fn object_field_int(&self, id: ObjectId, name: &str) -> (r: Option<i32>)
        ensures
            r == self@.field_int(id, name@),
    {
        match self.field(id, name) {
            Some(Value::Int(v)) => Some(*v),
            Some(Value::Long(v)) => Some(*v as i32),
            _ => None,
        }
    }

    pub fn object_field_float(&self, id: ObjectId, name: &str) -> (r: Option<u32>)
        ensures
            r == self@.field_single(id, name@),
    {
        match self.field(id, name) {
            Some(Value::Float(v)) => Some(*v),
            Some(Value::Double(v)) => Some(float::double_to_single(*v)),
            Some(Value::Int(v)) => Some(float::int_to_single(*v as i64)),
            _ => None,
        }
    }

    pub fn text_value(&self, value: Option<&Value>) -> (r: Option<String>)
        ensures
            some_string(r) == self@.text_value(value::maybe(value)),
    {
        match value {
            Some(Value::String(s)) => Some(s.clone()),
            Some(Value::Object(id)) => match self.heap_object(*id) {
                Some(HeapObject::String(s)) => Some(s.clone()),
                _ => None,
            },
            _ => None,
        }
    }

    pub fn object_field_string(&self, id: ObjectId, name: &str) -> (r: Option<String>)
        ensures
            some_string(r) == self@.field_text(id, name@),
    {
        self.text_value(self.field(id, name))
    }

    pub fn object_field_object(&self, id: ObjectId, name: &str) -> (r: Option<ObjectId>)
        ensures
            r == self@.field_object(id, name@),
    {
        match self.field(id, name) {
            Some(Value::Object(v)) => Some(*v),
            _ => None,
        }
    }

    pub fn class_name_from_value(&self, value: Option<&Value>) -> (r: Option<String>)
        ensures
            some_string(r) == self@.class_named(value::maybe(value)),
    {
        match value {
            Some(Value::Object(id)) => match self.heap_object(*id) {
                Some(HeapObject::Class(s)) => Some(s.clone()),
                Some(HeapObject::String(s)) => Some(s.clone()),
                _ => None,
            },
            _ => None,
        }
    }

    pub fn string_value(&self, value: Option<&Value>, index: usize) -> (r: Result<String, VmError>)
        ensures
            string_result(r) == self@.text_arg(value::maybe(value), index as int),
    {
        match value {
            Some(Value::String(s)) => Ok(s.clone()),
            Some(Value::Object(id)) => match self.heap_object(*id) {
                Some(HeapObject::String(s)) => Ok(s.clone()),
                Some(HeapObject::Instance { .. }) => match self.object_field_string(*id, "path") {
                    Some(s) => Ok(s),
                    None => Err(misfit_argument(index, *id, ", expected a path string")),
                },
                _ => Err(misfit_argument(index, *id, ", expected java.lang.String")),
            },
            _ => Err(unfit_argument(index, " is not a string")),
        }
    }

    pub fn string_arg(&self, args: &Vec<Value>, index: usize) -> (r: Result<String, VmError>)
        ensures
            string_result(r) == self@.text_arg(
                value::at(value::views(args@), index as int),
                index as int,
            ),
    {
        self.string_value(value_at(args, index), index)
    }

    pub fn string_or_empty(&self, args: &Vec<Value>, index: usize) -> (r: String)
        ensures
            r@ == self@.text_at(value::views(args@), index as int),
    {
        match self.string_arg(args, index) {
            Ok(s) => s,
            Err(_) => String::new(),
        }
    }

    pub fn boxed_value(&self, args: &Vec<Value>, index: usize) -> (r: Result<Value, VmError>)
        ensures
            error::outcome(r) == self@.unboxed(value::views(args@), index as int),
    {
        match value_at(args, index) {
            Some(Value::Object(id)) => match self.heap_object(*id) {
                Some(HeapObject::Boxed(v)) => Ok(v.clone()),
                Some(HeapObject::Instance { .. }) => match self.field(*id, "value") {
                    Some(v) => Ok(v.clone()),
                    None => Err(misfit_argument(index, *id, ", expected boxed primitive")),
                },
                _ => Err(misfit_argument(index, *id, ", expected boxed primitive")),
            },
            Some(Value::String(s)) => Err(
                failure_about(
                    0,
                    0,
                    text::join3(
                        "framework argument ",
                        text::decimal_unsigned(index as u64).as_str(),
                        " is not a boxed primitive: ",
                    ),
                    &Value::String(s.clone()),
                ),
            ),
            Some(Value::Null) => Ok(Value::Int(0)),
            Some(Value::Void) => Ok(Value::Int(0)),
            None => Ok(Value::Int(0)),
            Some(v) => Ok(v.clone()),
        }
    }

    pub fn log(&mut self, line: String)
        ensures
            final(self)@ == old(self)@.logged(line@),
    {
        push_text(&mut self.framework.logs, line);
    }

    pub fn perform(&mut self, effect: Effect)
        ensures
            final(self)@ == old(self)@.did(effect@),
    {
        self.effects.push(effect);
        assert(host::effects_view(self.effects@) =~= host::effects_view(old(self).effects@).push(
            effect@,
        ));
    }

    pub fn copy_field(&mut self, source: ObjectId, destination: ObjectId, name: &str)
        ensures
            final(self)@ == old(self)@.copied_field(source, destination, name@),
    {
        let value = match self.field(source, name) {
            Some(v) => v.clone(),
            None => {
                return ;
            },
        };
        self.set_object_field(destination, name, value);
    }

    pub fn copy_drawable_fields(&mut self, source: ObjectId, destination: ObjectId)
        ensures
            final(self)@ == old(self)@.copied_drawable(source, destination),
    {
        proof {
            reveal(WorldView::copied_drawable);
        }
        self.copy_field(source, destination, "asset_path");
        self.copy_field(source, destination, "path");
        self.copy_field(source, destination, "region_x");
        self.copy_field(source, destination, "region_y");
        self.copy_field(source, destination, "region_width");
        self.copy_field(source, destination, "region_height");
        self.copy_field(source, destination, "width");
        self.copy_field(source, destination, "height");
    }

    pub fn alloc_bitmap(&mut self, width: i32, height: i32) -> (r: ObjectId)
        ensures
            r == old(self)@.fresh(),
            final(self)@ == old(self)@.bitmap(width, height),
    {
        let id = self.alloc_instance("Landroid/graphics/Bitmap;");
        self.set_object_field(id, "width", Value::Int(max_int(width, 1)));
        self.set_object_field(id, "height", Value::Int(max_int(height, 1)));
        id
    }

    pub fn preference(&self, name: &str, key: &str) -> (r: Option<&String>)
        ensures
            table::seen(r) == table::lookup(self@.framework.preferences, (name@, key@)),
    {
        let i = self.find_preference(name, key);
        if i < self.framework.preferences.len() {
            Some(&self.framework.preferences[i].1)
        } else {
            None
        }
    }

    fn find_preference(&self, name: &str, key: &str) -> (r: usize)
        ensures
            r == table::place(self@.framework.preferences, (name@, key@)),
            r <= self.framework.preferences.len(),
    {
        let ghost all = self@.framework.preferences;
        let mut i: usize = 0;
        while i < self.framework.preferences.len()
            invariant
                i <= self.framework.preferences.len(),
                all == preference_texts(self.framework.preferences@),
                forall|j: int| 0 <= j < i ==> (#[trigger] all[j]).0 != (name@, key@),
            decreases self.framework.preferences.len() - i,
        {
            let entry = &self.framework.preferences[i];
            assert(all[i as int].0 == (entry.0.0@, entry.0.1@));
            if text::same(entry.0.0.as_str(), name) && text::same(entry.0.1.as_str(), key) {
                proof {
                    table::lemma_place_is(all, (name@, key@), i as int);
                }
                return i;
            }
            i += 1;
        }
        proof {
            table::lemma_place_is(all, (name@, key@), i as int);
        }
        i
    }

    pub fn set_preference(&mut self, name: String, key: String, value: String)
        ensures
            final(self)@ == (WorldView {
                framework: FrameworkView {
                    preferences: table::store(
                        old(self)@.framework.preferences,
                        (name@, key@),
                        value@,
                    ),
                    ..old(self)@.framework
                },
                ..old(self)@
            }),
    {
        let i = self.find_preference(name.as_str(), key.as_str());
        if i < self.framework.preferences.len() {
            self.framework.preferences.set(i, ((name, key), value));
        } else {
            self.framework.preferences.push(((name, key), value));
        }
        assert(preference_texts(self.framework.preferences@) =~= table::store(
            old(self)@.framework.preferences,
            (name@, key@),
            value@,
        ));
    }
}

pub fn find_numbered(entries: &Vec<(u32, String)>, id: u32) -> (r: Option<&String>)
    ensures
        table::seen(r) == table::lookup(numbered_texts(entries@), id),
{
    let ghost all = numbered_texts(entries@);
    let mut i: usize = 0;
    while i < entries.len()
        invariant
            i <= entries.len(),
            all == numbered_texts(entries@),
            forall|j: int| 0 <= j < i ==> (#[trigger] all[j]).0 != id,
        decreases entries.len() - i,
    {
        assert(all[i as int].0 == entries[i as int].0);
        if entries[i].0 == id {
            proof {
                table::lemma_place_is(all, id, i as int);
            }
            return Some(&entries[i].1);
        }
        i += 1;
    }
    proof {
        table::lemma_place_is(all, id, i as int);
    }
    None
}

} // verus!
