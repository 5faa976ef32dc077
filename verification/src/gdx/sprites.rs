//! Textures, regions and sprites, and how they are drawn.

use vstd::prelude::*;

use crate::arith;
use crate::color;
use crate::color::{opaque_color, pack_color, unpack_color, Rgba8};
use crate::convert;
use crate::convert::{err_of, float_arg, numeric_value, object_arg, object_id};
use crate::error;
use crate::error::{failure, ErrorView, VmError};
use crate::float;
use crate::framework::dispatch::effected;
use crate::framework::system::gives;
use crate::gdx::application;
use crate::gdx::application::{find_path, make, object_value};
use crate::gdx::gl;
use crate::host;
use crate::host::{
    AnswerView, Answers, Bounds, Corners, Effect, EffectView, Query, QueryView,
};
use crate::laws;
use crate::table;
use crate::text;
use crate::value;
use crate::value::{value_at, ObjectId, ObjectView, Value, ValueView};
use crate::world;
use crate::world::{Effected, World, WorldView};

verus! {

// Fields of drawable things.

pub open spec fn or_text(a: Option<Seq<char>>, b: Option<Seq<char>>) -> Option<Seq<char>> {
    match a {
        Some(s) => Some(s),
        None => b,
    }
}

/// The image of a drawable thing.
pub open spec fn image_path(w: WorldView, id: ObjectId) -> Option<Seq<char>> {
    or_text(w.field_text(id, "path"@), w.field_text(id, "asset_path"@))
}

fn find_image_path(w: &World, id: ObjectId) -> (r: Option<String>)
    ensures
        world::some_string(r) == image_path(w@, id),
{
    match w.object_field_string(id, "path") {
        Some(s) => Some(s),
        None => w.object_field_string(id, "asset_path"),
    }
}

/// A field as it will be when the drawable fields of one object have been copied to another.
pub open spec fn after_copy(
    w: WorldView,
    source: ObjectId,
    destination: ObjectId,
    name: Seq<char>,
) -> Option<ValueView> {
    match w.class_of(destination) {
        None => None,
        Some(_) => match w.field(source, name) {
            Some(v) => Some(v),
            None => w.field(destination, name),
        },
    }
}

fn get_after_copy<'a>(w: &'a World, source: ObjectId, destination: ObjectId, name: &str) -> (r:
    Option<&'a Value>)
    ensures
        value::maybe(r) == after_copy(w@, source, destination, name@),
{
    match w.class_name(destination) {
        None => None,
        Some(_) => match w.field(source, name) {
            Some(v) => Some(v),
            None => w.field(destination, name),
        },
    }
}

/// One field of those that are copied.
proof fn lemma_copied_field(
    w: WorldView,
    source: ObjectId,
    destination: ObjectId,
    name: Seq<char>,
    other: Seq<char>,
)
    ensures
        w.copied_field(source, destination, name).field(destination, name) == after_copy(
            w,
            source,
            destination,
            name,
        ) || w.class_of(destination) is None,
        other != name ==> {
            let after = w.copied_field(source, destination, name);
            &&& after.field(source, other) == w.field(source, other)
            &&& after.field(destination, other) == w.field(destination, other)
        },
        w.copied_field(source, destination, name).class_of(destination) == w.class_of(destination),
{
    match (w.object(destination), w.field(source, name)) {
        (Some(ObjectView::Instance { fields, .. }), Some(v)) => {
            table::store_then_lookup(fields, name, v, other);
        },
        _ => {},
    }
}

pub open spec fn drawable_fields() -> Seq<Seq<char>> {
    seq![
        "asset_path"@,
        "path"@,
        "region_x"@,
        "region_y"@,
        "region_width"@,
        "region_height"@,
        "width"@,
        "height"@,
    ]
}

pub open spec fn copied_so_far(
    w: WorldView,
    source: ObjectId,
    destination: ObjectId,
    count: nat,
) -> WorldView
    decreases count,
{
    if count == 0 {
        w
    } else {
        copied_so_far(w, source, destination, (count - 1) as nat).copied_field(
            source,
            destination,
            drawable_fields()[count - 1],
        )
    }
}

proof fn lemma_drawable_fields(i: int, j: int)
    requires
        0 <= i < j < 8,
    ensures
        drawable_fields()[i] != drawable_fields()[j],
{
    reveal_strlit("asset_path");
    reveal_strlit("path");
    reveal_strlit("region_x");
    reveal_strlit("region_y");
    reveal_strlit("region_width");
    reveal_strlit("region_height");
    reveal_strlit("width");
    reveal_strlit("height");
    assert("asset_path"@.len() == 10 && "path"@.len() == 4 && "region_x"@.len() == 8
        && "region_y"@.len() == 8 && "region_width"@.len() == 12 && "region_height"@.len() == 13
        && "width"@.len() == 5 && "height"@.len() == 6);
    assert("region_x"@[7] == 'x' && "region_y"@[7] == 'y');
}

proof fn lemma_copied_so_far(
    w: WorldView,
    source: ObjectId,
    destination: ObjectId,
    count: nat,
    i: int,
)
    requires
        count <= 8,
        0 <= i < 8,
        w.class_of(destination) is Some,
    ensures
        ({
            let after = copied_so_far(w, source, destination, count);
            let name = drawable_fields()[i];
            &&& after.class_of(destination) == w.class_of(destination)
            &&& i < count ==> after.field(destination, name) == after_copy(
                w,
                source,
                destination,
                name,
            )
            &&& i >= count ==> after.field(destination, name) == w.field(destination, name)
                && after.field(source, name) == w.field(source, name)
        }),
    decreases count,
{
    if count > 0 {
        let before = copied_so_far(w, source, destination, (count - 1) as nat);
        let last = count - 1;
        lemma_copied_so_far(w, source, destination, (count - 1) as nat, i);
        lemma_copied_field(
            before,
            source,
            destination,
            drawable_fields()[last],
            drawable_fields()[i],
        );
        if i < last {
            lemma_drawable_fields(i, last);
        } else if i > last {
            lemma_drawable_fields(last, i);
        }
    }
}

/// A thing that takes over how another is drawn has each of those fields from the other, where
/// the other has it.
pub proof fn a_drawable_takes_over_the_fields(
    w: WorldView,
    source: ObjectId,
    destination: ObjectId,
    i: int,
)
    requires
        0 <= i < drawable_fields().len(),
        w.class_of(destination) is Some,
    ensures
        w.copied_drawable(source, destination).field(destination, drawable_fields()[i])
            == after_copy(w, source, destination, drawable_fields()[i]),
{
    reveal(WorldView::copied_drawable);
    reveal_with_fuel(copied_so_far, 9);
    assert(copied_so_far(w, source, destination, 8) == w.copied_drawable(source, destination));
    lemma_copied_so_far(w, source, destination, 8, i);
}

pub open spec fn measured(v: Option<ValueView>) -> bool {
    match v {
        Some(ValueView::Float(_)) => true,
        Some(ValueView::Double(_)) => true,
        Some(ValueView::Int(_)) => true,
        _ => false,
    }
}

fn is_measured(v: Option<&Value>) -> (r: bool)
    ensures
        r == measured(value::maybe(v)),
{
    match v {
        Some(Value::Float(_)) => true,
        Some(Value::Double(_)) => true,
        Some(Value::Int(_)) => true,
        _ => false,
    }
}

/// The image whose size a region takes that gets no width from its source. An atlas region
/// looks at its own path alone.
pub open spec fn unmeasured_image(
    w: WorldView,
    source: ObjectId,
    region: ObjectId,
    of_atlas: bool,
) -> Option<Seq<char>> {
    if measured(after_copy(w, source, region, "region_width"@)) {
        None
    } else if of_atlas {
        w.text_value(after_copy(w, source, region, "path"@))
    } else {
        or_text(
            w.text_value(after_copy(w, source, region, "path"@)),
            w.text_value(after_copy(w, source, region, "asset_path"@)),
        )
    }
}

fn find_unmeasured_image(w: &World, source: ObjectId, region: ObjectId, of_atlas: bool) -> (r:
    Option<String>)
    ensures
        world::some_string(r) == unmeasured_image(w@, source, region, of_atlas),
{
    if is_measured(get_after_copy(w, source, region, "region_width")) {
        None
    } else if of_atlas {
        w.text_value(get_after_copy(w, source, region, "path"))
    } else {
        match w.text_value(get_after_copy(w, source, region, "path")) {
            Some(s) => Some(s),
            None => w.text_value(get_after_copy(w, source, region, "asset_path")),
        }
    }
}

/// The size of that image is asked for.
pub open spec fn region_question(
    w: WorldView,
    args: Seq<ValueView>,
    answers: Seq<AnswerView>,
    of_atlas: bool,
) -> Option<QueryView> {
    if answers.len() > 0 {
        None
    } else {
        match (convert::reference_arg(args, 0), convert::id_of(value::at(args, 1))) {
            (Ok(region), Some(source)) => match unmeasured_image(w, source, region, of_atlas) {
                Some(path) => Some(QueryView::ImageSize(path)),
                None => None,
            },
            _ => None,
        }
    }
}

fn ask_region(w: &World, args: &Vec<Value>, answers: &Answers, of_atlas: bool) -> (r: Option<Query>)
    ensures
        host::asked(r) == region_question(
            w@,
            value::views(args@),
            host::answers_view(answers@),
            of_atlas,
        ),
{
    if answers.len() > 0 {
        return None;
    }
    match (object_arg(args, 0), object_id(value_at(args, 1))) {
        (Ok(region), Some(source)) => match find_unmeasured_image(w, source, region, of_atlas) {
            Some(path) => Some(Query::ImageSize(path)),
            None => None,
        },
        _ => None,
    }
}

pub open spec fn with_size(w: WorldView, id: ObjectId, width: u32, height: u32) -> WorldView {
    w.with_field(id, "region_width"@, ValueView::Int(width as i32)).with_field(
        id,
        "region_height"@,
        ValueView::Int(height as i32),
    )
}

fn set_size(w: &mut World, id: ObjectId, width: u32, height: u32)
    ensures
        final(w)@ == with_size(old(w)@, id, width, height),
{
    w.set_object_field(id, "region_width", Value::Int(width as i32));
    w.set_object_field(id, "region_height", Value::Int(height as i32));
}

/// A region takes over how its source is drawn, and the size of the image where the source
/// has none.
pub open spec fn init_region(
    w: WorldView,
    args: Seq<ValueView>,
    answers: Seq<AnswerView>,
    of_atlas: bool,
) -> Effected {
    match convert::reference_arg(args, 0) {
        Err(e) => (w, Err(e)),
        Ok(region) => match convert::id_of(value::at(args, 1)) {
            None => gives(w, ValueView::Void),
            Some(source) => {
                let copied = w.copied_drawable(source, region);
                match (unmeasured_image(w, source, region, of_atlas), host::size_in(answers, 0)) {
                    (Some(_), Some((width, height))) => if of_atlas {
                        gives(
                            with_size(
                                copied.with_field(
                                    region,
                                    "region_x"@,
                                    ValueView::Int(0),
                                ).with_field(region, "region_y"@, ValueView::Int(0)),
                                region,
                                width,
                                height,
                            ),
                            ValueView::Void,
                        )
                    } else {
                        gives(with_size(copied, region, width, height), ValueView::Void)
                    },
                    _ => gives(copied, ValueView::Void),
                }
            },
        },
    }
}

fn call_init_region(w: &mut World, args: &Vec<Value>, answers: &Answers, of_atlas: bool) -> (r:
    Result<Value, VmError>)
    ensures
        (final(w)@, error::outcome(r)) == init_region(
            old(w)@,
            value::views(args@),
            host::answers_view(answers@),
            of_atlas,
        ),
{
    let region = object_arg(args, 0)?;
    match object_id(value_at(args, 1)) {
        None => {},
        Some(source) => {
            let image = find_unmeasured_image(w, source, region, of_atlas);
            w.copy_drawable_fields(source, region);
            match (image, host::get_size(answers, 0)) {
                (Some(_), Some((width, height))) => {
                    if of_atlas {
                        w.set_object_field(region, "region_x", Value::Int(0));
                        w.set_object_field(region, "region_y", Value::Int(0));
                    }
                    set_size(w, region, width, height);
                },
                _ => {},
            }
        },
    }
    Ok(Value::Void)
}

/// A thing made from a file remembers its path.
pub open spec fn init_from_file(w: WorldView, args: Seq<ValueView>) -> Effected {
    match convert::reference_arg(args, 0) {
        Err(e) => (w, Err(e)),
        Ok(receiver) => match application::path_arg(w, args) {
            Err(e) => (w, Err(e)),
            Ok(None) => gives(w, ValueView::Void),
            Ok(Some(path)) => gives(
                w.with_field(receiver, "path"@, ValueView::String(path)),
                ValueView::Void,
            ),
        },
    }
}

fn call_init_from_file(w: &mut World, args: &Vec<Value>) -> (r: Result<Value, VmError>)
    ensures
        (final(w)@, error::outcome(r)) == init_from_file(old(w)@, value::views(args@)),
{
    let receiver = object_arg(args, 0)?;
    match find_path(w, args)? {
        None => {},
        Some(path) => w.set_object_field(receiver, "path", Value::String(path)),
    }
    Ok(Value::Void)
}

// `TextureAtlas`.

/// The atlas and the name that a search for a region has.
pub open spec fn wanted_region(w: WorldView, args: Seq<ValueView>) -> Option<
    (Seq<char>, Seq<char>),
> {
    match (convert::id_of(value::at(args, 0)), w.text_value(value::at(args, 1))) {
        (Some(atlas), Some(name)) => Some(
            (
                match w.field_text(atlas, "path"@) {
                    Some(s) => s,
                    None => Seq::empty(),
                },
                name,
            ),
        ),
        _ => None,
    }
}

pub open spec fn both_texts(r: Option<(String, String)>) -> Option<(Seq<char>, Seq<char>)> {
    match r {
        Some((a, b)) => Some((a@, b@)),
        None => None,
    }
}

fn find_wanted_region(w: &World, args: &Vec<Value>) -> (r: Option<(String, String)>)
    ensures
        both_texts(r) == wanted_region(w@, value::views(args@)),
{
    match (object_id(value_at(args, 0)), w.text_value(value_at(args, 1))) {
        (Some(atlas), Some(name)) => {
            let path = match w.object_field_string(atlas, "path") {
                Some(s) => s,
                None => String::new(),
            };
            Some((path, name))
        },
        _ => None,
    }
}

pub open spec fn atlas_question(
    w: WorldView,
    method: Seq<char>,
    args: Seq<ValueView>,
    answers: Seq<AnswerView>,
) -> Option<QueryView> {
    if answers.len() == 0 && method == "findRegion"@ {
        match wanted_region(w, args) {
            Some((atlas, name)) => Some(QueryView::Region { atlas, name }),
            None => None,
        }
    } else {
        None
    }
}

fn ask_atlas(w: &World, method: &str, args: &Vec<Value>, answers: &Answers) -> (r: Option<Query>)
    ensures
        host::asked(r) == atlas_question(
            w@,
            method@,
            value::views(args@),
            host::answers_view(answers@),
        ),
{
    if answers.len() == 0 && text::same(method, "findRegion") {
        match find_wanted_region(w, args) {
            Some((atlas, name)) => Some(Query::Region { atlas, name }),
            None => None,
        }
    } else {
        None
    }
}

pub open spec fn find_region(
    w: WorldView,
    args: Seq<ValueView>,
    answers: Seq<AnswerView>,
) -> Effected {
    let made = w.with_object(
        world::instance_of("Lcom/badlogic/gdx/graphics/g2d/TextureAtlas$AtlasRegion;"@),
    );
    let id = w.fresh();
    match (wanted_region(w, args), host::region_in(answers)) {
        (Some(_), Some(r)) => gives(
            with_size(
                made.with_field(id, "asset_path"@, ValueView::String(r.page)).with_field(
                    id,
                    "region_x"@,
                    ValueView::Int(r.x as i32),
                ).with_field(id, "region_y"@, ValueView::Int(r.y as i32)),
                id,
                r.width,
                r.height,
            ),
            application::object_result(id),
        ),
        _ => gives(made, application::object_result(id)),
    }
}

fn call_find_region(w: &mut World, args: &Vec<Value>, answers: &Answers) -> (r: Result<
    Value,
    VmError,
>)
    ensures
        (final(w)@, error::outcome(r)) == find_region(
            old(w)@,
            value::views(args@),
            host::answers_view(answers@),
        ),
{
    let wanted = find_wanted_region(w, args);
    let id = w.alloc_instance("Lcom/badlogic/gdx/graphics/g2d/TextureAtlas$AtlasRegion;");
    match (wanted, host::get_region(answers)) {
        (Some(_), Some(r)) => {
            w.set_object_field(id, "asset_path", Value::String(r.page.clone()));
            w.set_object_field(id, "region_x", Value::Int(r.x as i32));
            w.set_object_field(id, "region_y", Value::Int(r.y as i32));
            set_size(w, id, r.width, r.height);
        },
        _ => {},
    }
    Ok(object_value(id))
}

/// A sprite as large as the region it shows.
pub open spec fn sized_like(w: WorldView, source: ObjectId, sprite: ObjectId) -> WorldView {
    let wide = match w.field_single(source, "region_width"@) {
        Some(n) => w.with_field(sprite, "width"@, ValueView::Float(n)),
        None => w,
    };
    match wide.field_single(source, "region_height"@) {
        Some(n) => wide.with_field(sprite, "height"@, ValueView::Float(n)),
        None => wide,
    }
}

fn size_like(w: &mut World, source: ObjectId, sprite: ObjectId)
    ensures
        final(w)@ == sized_like(old(w)@, source, sprite),
{
    match w.object_field_float(source, "region_width") {
        Some(n) => w.set_object_field(sprite, "width", Value::Float(n)),
        None => {},
    }
    match w.object_field_float(source, "region_height") {
        Some(n) => w.set_object_field(sprite, "height", Value::Float(n)),
        None => {},
    }
}

pub open spec fn create_sprite(w: WorldView, args: Seq<ValueView>) -> Effected {
    let made = w.with_object(world::instance_of("Lcom/badlogic/gdx/graphics/g2d/Sprite;"@));
    match convert::id_of(value::at(args, 1)) {
        Some(region) => gives(
            sized_like(made.copied_drawable(region, w.fresh()), region, w.fresh()),
            application::object_result(w.fresh()),
        ),
        None => gives(made, application::object_result(w.fresh())),
    }
}

fn call_create_sprite(w: &mut World, args: &Vec<Value>) -> (r: Result<Value, VmError>)
    ensures
        (final(w)@, error::outcome(r)) == create_sprite(old(w)@, value::views(args@)),
{
    let sprite = w.alloc_instance("Lcom/badlogic/gdx/graphics/g2d/Sprite;");
    match object_id(value_at(args, 1)) {
        Some(region) => {
            w.copy_drawable_fields(region, sprite);
            size_like(w, region, sprite);
        },
        None => {},
    }
    Ok(object_value(sprite))
}

pub open spec fn atlas(
    w: WorldView,
    method: Seq<char>,
    args: Seq<ValueView>,
    answers: Seq<AnswerView>,
) -> Option<Effected> {
    if method == "<init>"@ {
        Some(init_from_file(w, args))
    } else if method == "findRegion"@ {
        Some(find_region(w, args, answers))
    } else if method == "findRegions"@ {
        Some(
            gives(
                w.with_object(ObjectView::Collection(Seq::empty())),
                application::object_result(w.fresh()),
            ),
        )
    } else if method == "createSprite"@ || method == "newSprite"@ {
        Some(create_sprite(w, args))
    } else if method == "dispose"@ {
        Some(gives(w, ValueView::Void))
    } else {
        None
    }
}

fn call_atlas(w: &mut World, method: &str, args: &Vec<Value>, answers: &Answers) -> (r: Option<
    Result<Value, VmError>,
>)
    ensures
        effected(final(w)@, r) == atlas(
            old(w)@,
            method@,
            value::views(args@),
            host::answers_view(answers@),
        ),
        r is None ==> final(w)@ == old(w)@,
{
    if text::same(method, "<init>") {
        Some(call_init_from_file(w, args))
    } else if text::same(method, "findRegion") {
        Some(call_find_region(w, args, answers))
    } else if text::same(method, "findRegions") {
        let id = w.alloc_collection();
        Some(Ok(object_value(id)))
    } else if text::same(method, "createSprite") || text::same(method, "newSprite") {
        Some(call_create_sprite(w, args))
    } else if text::same(method, "dispose") {
        Some(Ok(Value::Void))
    } else {
        None
    }
}

// `Texture`.

pub open spec fn texture_path(w: WorldView, args: Seq<ValueView>) -> Option<Seq<char>> {
    match convert::id_of(value::at(args, 0)) {
        Some(id) => w.field_text(id, "path"@),
        None => None,
    }
}

fn find_texture_path(w: &World, args: &Vec<Value>) -> (r: Option<String>)
    ensures
        world::some_string(r) == texture_path(w@, value::views(args@)),
{
    match object_id(value_at(args, 0)) {
        Some(id) => w.object_field_string(id, "path"),
        None => None,
    }
}

pub open spec fn texture_question(
    w: WorldView,
    method: Seq<char>,
    args: Seq<ValueView>,
    answers: Seq<AnswerView>,
) -> Option<QueryView> {
    if answers.len() == 0 && (method == "getWidth"@ || method == "getHeight"@) {
        match texture_path(w, args) {
            Some(path) => Some(QueryView::ImageSize(path)),
            None => None,
        }
    } else {
        None
    }
}

fn ask_texture(w: &World, method: &str, args: &Vec<Value>, answers: &Answers) -> (r: Option<Query>)
    ensures
        host::asked(r) == texture_question(
            w@,
            method@,
            value::views(args@),
            host::answers_view(answers@),
        ),
{
    if answers.len() == 0 && (text::same(method, "getWidth") || text::same(method, "getHeight")) {
        match find_texture_path(w, args) {
            Some(path) => Some(Query::ImageSize(path)),
            None => None,
        }
    } else {
        None
    }
}

pub open spec fn texture(
    w: WorldView,
    method: Seq<char>,
    args: Seq<ValueView>,
    answers: Seq<AnswerView>,
) -> Option<Effected> {
    if method == "<init>"@ {
        Some(init_from_file(w, args))
    } else if method == "dispose"@ || method == "setFilter"@ || method == "setWrap"@ {
        Some(gives(w, ValueView::Void))
    } else if method == "getWidth"@ || method == "getHeight"@ {
        match (texture_path(w, args), host::size_in(answers, 0)) {
            (Some(_), Some((width, height))) => if method == "getWidth"@ {
                Some(gives(w, ValueView::Int(width as i32)))
            } else {
                Some(gives(w, ValueView::Int(height as i32)))
            },
            _ => Some(
                (
                    w,
                    Err(
                        error::fault(
                            0,
                            0,
                            "Texture dimensions unavailable: asset was not found or could not be decoded"@,
                        ),
                    ),
                ),
            ),
        }
    } else {
        None
    }
}

fn call_texture(w: &mut World, method: &str, args: &Vec<Value>, answers: &Answers) -> (r: Option<
    Result<Value, VmError>,
>)
    ensures
        effected(final(w)@, r) == texture(
            old(w)@,
            method@,
            value::views(args@),
            host::answers_view(answers@),
        ),
        r is None ==> final(w)@ == old(w)@,
{
    if text::same(method, "<init>") {
        Some(call_init_from_file(w, args))
    } else if text::same(method, "dispose") || text::same(method, "setFilter") || text::same(
        method,
        "setWrap",
    ) {
        Some(Ok(Value::Void))
    } else if text::same(method, "getWidth") || text::same(method, "getHeight") {
        match (find_texture_path(w, args), host::get_size(answers, 0)) {
            (Some(_), Some((width, height))) => if text::same(method, "getWidth") {
                Some(Ok(Value::Int(width as i32)))
            } else {
                Some(Ok(Value::Int(height as i32)))
            },
            _ => Some(
                Err(
                    failure(
                        0,
                        0,
                        "Texture dimensions unavailable: asset was not found or could not be decoded",
                    ),
                ),
            ),
        }
    } else {
        None
    }
}

// `TextureRegion` and `AtlasRegion`.

pub open spec fn region_field(method: Seq<char>) -> Seq<char> {
    if method == "getRegionWidth"@ {
        "region_width"@
    } else if method == "getRegionHeight"@ {
        "region_height"@
    } else if method == "getRegionX"@ {
        "region_x"@
    } else {
        "region_y"@
    }
}

pub open spec fn single_or(v: Option<u32>, otherwise: u32) -> u32 {
    match v {
        Some(n) => n,
        None => otherwise,
    }
}

fn field_or(w: &World, id: ObjectId, name: &str, otherwise: u32) -> (r: u32)
    ensures
        r == single_or(w@.field_single(id, name@), otherwise),
{
    match w.object_field_float(id, name) {
        Some(n) => n,
        None => otherwise,
    }
}

pub open spec fn region(
    w: WorldView,
    of_atlas: bool,
    method: Seq<char>,
    args: Seq<ValueView>,
    answers: Seq<AnswerView>,
) -> Option<Effected> {
    if method == "<init>"@ {
        Some(init_region(w, args, answers, of_atlas))
    } else if method == "getRegionWidth"@ || method == "getRegionHeight"@ || method
        == "getRegionX"@ || method == "getRegionY"@ {
        match convert::reference_arg(args, 0) {
            Err(e) => Some((w, Err(e))),
            Ok(id) => Some(
                gives(
                    w,
                    ValueView::Int(
                        float::single_as(
                            single_or(w.field_single(id, region_field(method)), 0),
                            i32::MIN as int,
                            i32::MAX as int,
                        ) as i32,
                    ),
                ),
            ),
        }
    } else if method == "getTexture"@ {
        match convert::reference_arg(args, 0) {
            Err(e) => Some((w, Err(e))),
            Ok(id) => Some(
                gives(
                    w.with_object(
                        world::instance_of("Lcom/badlogic/gdx/graphics/Texture;"@),
                    ).copied_drawable(id, w.fresh()),
                    application::object_result(w.fresh()),
                ),
            ),
        }
    } else if method == "setRegion"@ {
        Some(gives(w, ValueView::Void))
    } else {
        None
    }
}

fn call_region(w: &mut World, of_atlas: bool, method: &str, args: &Vec<Value>, answers: &Answers) -> (
r: Option<Result<Value, VmError>>)
    ensures
        effected(final(w)@, r) == region(
            old(w)@,
            of_atlas,
            method@,
            value::views(args@),
            host::answers_view(answers@),
        ),
        r is None ==> final(w)@ == old(w)@,
{
    if text::same(method, "<init>") {
        Some(call_init_region(w, args, answers, of_atlas))
    } else if text::same(method, "getRegionWidth") || text::same(method, "getRegionHeight")
        || text::same(method, "getRegionX") || text::same(method, "getRegionY") {
        match object_arg(args, 0) {
            Err(e) => Some(Err(e)),
            Ok(id) => {
                let name = if text::same(method, "getRegionWidth") {
                    "region_width"
                } else if text::same(method, "getRegionHeight") {
                    "region_height"
                } else if text::same(method, "getRegionX") {
                    "region_x"
                } else {
                    "region_y"
                };
                Some(Ok(Value::Int(float::single_to_int(field_or(w, id, name, 0)))))
            },
        }
    } else if text::same(method, "getTexture") {
        match object_arg(args, 0) {
            Err(e) => Some(Err(e)),
            Ok(id) => {
                let made = w.alloc_instance("Lcom/badlogic/gdx/graphics/Texture;");
                w.copy_drawable_fields(id, made);
                Some(Ok(object_value(made)))
            },
        }
    } else if text::same(method, "setRegion") {
        Some(Ok(Value::Void))
    } else {
        None
    }
}

// Colours of sprites.

/// A colour from four numbers, or from a colour object.
pub open spec fn color_named(w: WorldView, args: Seq<ValueView>) -> Result<Rgba8, ErrorView> {
    if args.len() >= 5 {
        gl::color_from(args, 1)
    } else {
        match convert::reference_arg(args, 1) {
            Err(e) => Err(e),
            Ok(id) => Ok(
                Rgba8 {
                    r: gl::unit_byte(single_or(w.field_single(id, "r"@), 0x3f80_0000)),
                    g: gl::unit_byte(single_or(w.field_single(id, "g"@), 0x3f80_0000)),
                    b: gl::unit_byte(single_or(w.field_single(id, "b"@), 0x3f80_0000)),
                    a: gl::unit_byte(single_or(w.field_single(id, "a"@), 0x3f80_0000)),
                },
            ),
        }
    }
}

fn color_args(w: &World, args: &Vec<Value>) -> (r: Result<Rgba8, VmError>)
    ensures
        err_of(r) == color_named(w@, value::views(args@)),
{
    if args.len() >= 5 {
        gl::read_color(args, 1)
    } else {
        let id = object_arg(args, 1)?;
        Ok(
            Rgba8 {
                r: gl::to_byte(field_or(w, id, "r", 0x3f80_0000)),
                g: gl::to_byte(field_or(w, id, "g", 0x3f80_0000)),
                b: gl::to_byte(field_or(w, id, "b", 0x3f80_0000)),
                a: gl::to_byte(field_or(w, id, "a", 0x3f80_0000)),
            },
        )
    }
}

/// `setColor` of a sprite or a batch.
pub open spec fn set_color(w: WorldView, args: Seq<ValueView>) -> Effected {
    match convert::reference_arg(args, 0) {
        Err(e) => (w, Err(e)),
        Ok(id) => match color_named(w, args) {
            Err(e) => (w, Err(e)),
            Ok(c) => gives(
                w.with_field(id, "color"@, ValueView::Int(color::packed(c))),
                ValueView::Void,
            ),
        },
    }
}

fn call_set_color(w: &mut World, args: &Vec<Value>) -> (r: Result<Value, VmError>)
    ensures
        (final(w)@, error::outcome(r)) == set_color(old(w)@, value::views(args@)),
{
    let id = object_arg(args, 0)?;
    let c = color_args(w, args)?;
    w.set_object_field(id, "color", Value::Int(pack_color(c)));
    Ok(Value::Void)
}

pub open spec fn tint(w: WorldView, id: Option<ObjectId>) -> Rgba8 {
    match id {
        Some(id) => match w.field_int(id, "color"@) {
            Some(n) => color::unpacked(n),
            None => color::opaque_of(255, 255, 255),
        },
        None => color::opaque_of(255, 255, 255),
    }
}

fn get_tint(w: &World, id: Option<ObjectId>) -> (r: Rgba8)
    ensures
        r == tint(w@, id),
{
    match id {
        Some(id) => match w.object_field_int(id, "color") {
            Some(n) => unpack_color(n),
            None => opaque_color(255, 255, 255),
        },
        None => opaque_color(255, 255, 255),
    }
}

// Drawing.

/// A part of an image, in pixels: all four fields, or none.
pub open spec fn source_region(w: WorldView, id: Option<ObjectId>) -> Option<Bounds> {
    match id {
        None => None,
        Some(id) => match (
            w.field_single(id, "region_x"@),
            w.field_single(id, "region_y"@),
            w.field_single(id, "region_width"@),
            w.field_single(id, "region_height"@),
        ) {
            (Some(x), Some(y), Some(width), Some(height)) => Some(Bounds { x, y, width, height }),
            _ => None,
        },
    }
}

fn find_source_region(w: &World, id: Option<ObjectId>) -> (r: Option<Bounds>)
    ensures
        r == source_region(w@, id),
{
    match id {
        None => None,
        Some(id) => match (
            w.object_field_float(id, "region_x"),
            w.object_field_float(id, "region_y"),
            w.object_field_float(id, "region_width"),
            w.object_field_float(id, "region_height"),
        ) {
            (Some(x), Some(y), Some(width), Some(height)) => Some(Bounds { x, y, width, height }),
            _ => None,
        },
    }
}

pub open spec fn at_least_one(n: u32) -> u32 {
    if n == 0 {
        1
    } else {
        n
    }
}

/// The corners of a part of an image of a size, as fractions of the size.
pub open spec fn corners(region: Bounds, width: u32, height: u32) -> Corners {
    let across = float::int_as_single(at_least_one(width) as int);
    let down = float::int_as_single(at_least_one(height) as int);
    Corners {
        left: arith::single_quotient(region.x, across),
        top: arith::single_quotient(region.y, down),
        right: arith::single_quotient(arith::single_sum(region.x, region.width), across),
        bottom: arith::single_quotient(arith::single_sum(region.y, region.height), down),
    }
}

/// What is drawn of an image that the surroundings can draw; nothing of another.
pub open spec fn rendered(
    w: WorldView,
    path: Seq<char>,
    size: Option<(u32, u32)>,
    bounds: Bounds,
    region: Option<Bounds>,
    color: Rgba8,
) -> WorldView {
    match size {
        None => w,
        Some((width, height)) => {
            let uploaded = w.did(EffectView::UploadImage(path));
            match region {
                Some(r) => uploaded.did(
                    EffectView::DrawRegion { bounds, corners: corners(r, width, height), color },
                ),
                None => uploaded.did(EffectView::DrawTexture { bounds, color }),
            }
        },
    }
}

fn render_asset(
    w: &mut World,
    path: String,
    size: Option<(u32, u32)>,
    bounds: Bounds,
    region: Option<Bounds>,
    color: Rgba8,
) -> (r: bool)
    ensures
        final(w)@ == rendered(old(w)@, path@, size, bounds, region, color),
        r == (size is Some),
{
    match size {
        None => false,
        Some((width, height)) => {
            w.perform(Effect::UploadImage(path));
            match region {
                Some(part) => {
                    let across = float::count_to_single(
                        if width == 0 {
                            1
                        } else {
                            width as u64
                        },
                    );
                    let down = float::count_to_single(
                        if height == 0 {
                            1
                        } else {
                            height as u64
                        },
                    );
                    let right = arith::single_add(part.x, part.width);
                    let bottom = arith::single_add(part.y, part.height);
                    let corners = Corners {
                        left: arith::single_divide(part.x, across),
                        top: arith::single_divide(part.y, down),
                        right: arith::single_divide(right, across),
                        bottom: arith::single_divide(bottom, down),
                    };
                    w.perform(Effect::DrawRegion { bounds, corners, color });
                },
                None => w.perform(Effect::DrawTexture { bounds, color }),
            }
            true
        },
    }
}

/// The drawable thing whose size counts: the second argument, or a sprite that is the first.
pub open spec fn measure(w: WorldView, args: Seq<ValueView>) -> Option<ObjectId> {
    match convert::id_of(value::at(args, 1)) {
        Some(id) => Some(id),
        None => match convert::id_of(value::at(args, 0)) {
            Some(id) => if w.class_of(id) == Some("Lcom/badlogic/gdx/graphics/g2d/Sprite;"@) {
                Some(id)
            } else {
                None
            },
            None => None,
        },
    }
}

fn find_measure(w: &World, args: &Vec<Value>) -> (r: Option<ObjectId>)
    ensures
        r == measure(w@, value::views(args@)),
{
    match object_id(value_at(args, 1)) {
        Some(id) => Some(id),
        None => match object_id(value_at(args, 0)) {
            Some(id) => match w.class_name(id) {
                Some(name) => if text::same(name, "Lcom/badlogic/gdx/graphics/g2d/Sprite;") {
                    Some(id)
                } else {
                    None
                },
                None => None,
            },
            None => None,
        },
    }
}

/// A field that is a finite number above zero.
pub open spec fn positive_field(w: WorldView, id: Option<ObjectId>, name: Seq<char>) -> Option<
    u32,
> {
    match id {
        None => None,
        Some(id) => match w.field_single(id, name) {
            Some(n) => if float::single_positive(n) {
                Some(n)
            } else {
                None
            },
            None => None,
        },
    }
}

fn get_positive_field(w: &World, id: Option<ObjectId>, name: &str) -> (r: Option<u32>)
    ensures
        r == positive_field(w@, id, name@),
{
    match id {
        None => None,
        Some(id) => match w.object_field_float(id, name) {
            Some(n) => if float::single_is_positive(n) {
                Some(n)
            } else {
                None
            },
            None => None,
        },
    }
}

/// The image whose size stands in for a missing width or height.
pub open spec fn bounds_image(w: WorldView, args: Seq<ValueView>) -> Option<Seq<char>> {
    let id = measure(w, args);
    if id is Some && (positive_field(w, id, "region_width"@) is None || positive_field(
        w,
        id,
        "region_height"@,
    ) is None) {
        image_path(w, id->0)
    } else {
        None
    }
}

fn find_bounds_image(w: &World, args: &Vec<Value>) -> (r: Option<String>)
    ensures
        world::some_string(r) == bounds_image(w@, value::views(args@)),
{
    let id = find_measure(w, args);
    match id {
        Some(found) => if get_positive_field(w, id, "region_width").is_none()
            || get_positive_field(w, id, "region_height").is_none() {
            find_image_path(w, found)
        } else {
            None
        },
        None => None,
    }
}

pub open spec fn or_single(a: Option<u32>, b: Option<u32>) -> Option<u32> {
    match a {
        Some(n) => Some(n),
        None => b,
    }
}

/// A coordinate: the receiver's field, or an argument, or zero.
pub open spec fn coordinate(
    w: WorldView,
    args: Seq<ValueView>,
    name: Seq<char>,
    index: int,
) -> u32 {
    let own = match convert::id_of(value::at(args, 0)) {
        Some(id) => w.field_single(id, name),
        None => None,
    };
    single_or(or_single(own, convert::number_at(args, index)), 0)
}

fn get_coordinate(w: &World, args: &Vec<Value>, name: &str, index: usize) -> (r: u32)
    ensures
        r == coordinate(w@, value::views(args@), name@, index as int),
{
    let own = match object_id(value_at(args, 0)) {
        Some(id) => w.object_field_float(id, name),
        None => None,
    };
    match own {
        Some(n) => n,
        None => match numeric_value(value_at(args, index)) {
            Some(n) => n,
            None => 0,
        },
    }
}

pub open spec fn above_zero(v: Option<u32>) -> Option<u32> {
    match v {
        Some(n) => if 0 < n <= 0x7f80_0000 {
            Some(n)
        } else {
            None
        },
        None => None,
    }
}

/// A width or height: the receiver's, that of its region, an argument, or that of the thing
/// drawn, and never below one.
pub open spec fn extent(
    w: WorldView,
    args: Seq<ValueView>,
    name: Seq<char>,
    region_name: Seq<char>,
    index: int,
    image: Option<u32>,
) -> u32 {
    let receiver = convert::id_of(value::at(args, 0));
    let from_image = match image {
        Some(n) => Some(float::int_as_single(n as int)),
        None => None,
    };
    let drawn = match measure(w, args) {
        Some(id) => or_single(positive_field(w, Some(id), region_name), from_image),
        None => None,
    };
    float::single_greater(
        single_or(
            or_single(
                positive_field(w, receiver, name),
                or_single(
                    positive_field(w, receiver, region_name),
                    or_single(above_zero(convert::number_at(args, index)), drawn),
                ),
            ),
            0x3f80_0000,
        ),
        0x3f80_0000,
    )
}

fn get_extent(
    w: &World,
    args: &Vec<Value>,
    name: &str,
    region_name: &str,
    index: usize,
    image: Option<u32>,
) -> (r: u32)
    ensures
        r == extent(w@, value::views(args@), name@, region_name@, index as int, image),
{
    let receiver = object_id(value_at(args, 0));
    let own = match get_positive_field(w, receiver, name) {
        Some(n) => Some(n),
        None => match get_positive_field(w, receiver, region_name) {
            Some(n) => Some(n),
            None => match numeric_value(value_at(args, index)) {
                Some(n) => if 0 < n && n <= 0x7f80_0000 {
                    Some(n)
                } else {
                    None
                },
                None => None,
            },
        },
    };
    let chosen: u32 = match own {
        Some(n) => n,
        None => match find_measure(w, args) {
            Some(id) => match get_positive_field(w, Some(id), region_name) {
                Some(n) => n,
                None => match image {
                    Some(n) => float::count_to_single(n as u64),
                    None => 0x3f80_0000,
                },
            },
            None => 0x3f80_0000,
        },
    };
    float::single_max(chosen, 0x3f80_0000)
}

/// Where a thing is drawn, given the size of its image.
pub open spec fn bounds_of(
    w: WorldView,
    args: Seq<ValueView>,
    size: Option<(u32, u32)>,
) -> Bounds {
    let (width, height) = match (bounds_image(w, args), size) {
        (Some(_), Some((width, height))) => (Some(width), Some(height)),
        _ => (None, None),
    };
    Bounds {
        x: coordinate(w, args, "x"@, 2),
        y: coordinate(w, args, "y"@, 3),
        width: extent(w, args, "width"@, "region_width"@, 4, width),
        height: extent(w, args, "height"@, "region_height"@, 5, height),
    }
}

/// Width and height are numbers for all arguments, and never less than one.
pub fn draw_bounds(w: &World, args: &Vec<Value>, size: Option<(u32, u32)>) -> (r: Bounds)
    ensures
        r == bounds_of(w@, value::views(args@), size),
        0x3f80_0000 <= r.width <= 0x7f80_0000,
        0x3f80_0000 <= r.height <= 0x7f80_0000,
{
    proof {
        laws::framework::what_is_drawn_is_at_least_one_wide_and_high(
            w@,
            value::views(args@),
            size,
        );
    }
    let (width, height): (Option<u32>, Option<u32>) = match (find_bounds_image(w, args), size) {
        (Some(_), Some((width, height))) => (Some(width), Some(height)),
        _ => (None, None),
    };
    Bounds {
        x: get_coordinate(w, args, "x", 2),
        y: get_coordinate(w, args, "y", 3),
        width: get_extent(w, args, "width", "region_width", 4, width),
        height: get_extent(w, args, "height", "region_height", 5, height),
    }
}

/// Drawing asks for the size of an image where the bounds need it, and then whether the image
/// that is drawn can be.
pub open spec fn drawing_question(
    w: WorldView,
    bounds_args: Seq<ValueView>,
    path: Option<Seq<char>>,
    answers: Seq<AnswerView>,
) -> Option<QueryView> {
    match bounds_image(w, bounds_args) {
        Some(image) => if answers.len() == 0 {
            Some(QueryView::ImageSize(image))
        } else if answers.len() == 1 && path is Some {
            Some(QueryView::Image(path->0))
        } else {
            None
        },
        None => if answers.len() == 0 && path is Some {
            Some(QueryView::Image(path->0))
        } else {
            None
        },
    }
}

fn ask_drawing(w: &World, bounds_args: &Vec<Value>, path: Option<String>, answers: &Answers) -> (r:
    Option<Query>)
    ensures
        host::asked(r) == drawing_question(
            w@,
            value::views(bounds_args@),
            world::some_string(path),
            host::answers_view(answers@),
        ),
{
    match find_bounds_image(w, bounds_args) {
        Some(image) => if answers.len() == 0 {
            Some(Query::ImageSize(image))
        } else if answers.len() == 1 {
            match path {
                Some(p) => Some(Query::Image(p)),
                None => None,
            }
        } else {
            None
        },
        None => if answers.len() == 0 {
            match path {
                Some(p) => Some(Query::Image(p)),
                None => None,
            }
        } else {
            None
        },
    }
}

/// Which answer says whether the image can be drawn.
pub open spec fn image_answer(w: WorldView, bounds_args: Seq<ValueView>) -> int {
    if bounds_image(w, bounds_args) is Some {
        1
    } else {
        0
    }
}

fn image_answer_index(w: &World, bounds_args: &Vec<Value>) -> (r: usize)
    ensures
        r == image_answer(w@, value::views(bounds_args@)),
{
    if find_bounds_image(w, bounds_args).is_some() {
        1
    } else {
        0
    }
}

/// `Sprite.draw`.
#[verifier::opaque]
pub open spec fn draw_sprite(
    w: WorldView,
    sprite: ObjectId,
    answers: Seq<AnswerView>,
) -> WorldView {
    let args = seq![ValueView::Object(sprite)];
    match image_path(w, sprite) {
        Some(path) => rendered(
            w,
            path,
            host::size_in(answers, image_answer(w, args)),
            bounds_of(w, args, host::size_in(answers, 0)),
            source_region(w, Some(sprite)),
            tint(w, Some(sprite)),
        ),
        None => w,
    }
}

fn alone(id: ObjectId) -> (r: Vec<Value>)
    ensures
        value::views(r@) == seq![ValueView::Object(id)],
{
    let r = vec![Value::Object(id)];
    assert(value::views(r@) =~= seq![ValueView::Object(id)]);
    r
}

fn call_draw_sprite(w: &mut World, sprite: ObjectId, answers: &Answers)
    ensures
        final(w)@ == draw_sprite(old(w)@, sprite, host::answers_view(answers@)),
{
    proof {
        reveal(draw_sprite);
    }
    let args = alone(sprite);
    match find_image_path(w, sprite) {
        Some(path) => {
            let bounds = draw_bounds(w, &args, host::get_size(answers, 0));
            let index = image_answer_index(w, &args);
            let part = find_source_region(w, Some(sprite));
            let color = get_tint(w, Some(sprite));
            let _ = render_asset(w, path, host::get_size(answers, index), bounds, part, color);
        },
        None => {},
    }
}

/// Drawing with all parameters: where they are given, and what.
pub open spec fn placed_drawing(w: WorldView, args: Seq<ValueView>) -> Result<
    (Bounds, ObjectId),
    ErrorView,
> {
    match convert::reference_arg(args, 1) {
        Err(e) => Err(e),
        Ok(id) => match convert::single_arg(args, 2) {
            Err(e) => Err(e),
            Ok(x) => match convert::single_arg(args, 3) {
                Err(e) => Err(e),
                Ok(y) => match convert::single_arg(args, 6) {
                    Err(e) => Err(e),
                    Ok(width) => match convert::single_arg(args, 7) {
                        Err(e) => Err(e),
                        Ok(height) => Ok((Bounds { x, y, width, height }, id)),
                    },
                },
            },
        },
    }
}

fn read_placed_drawing(args: &Vec<Value>, w: &World) -> (r: Result<(Bounds, ObjectId), VmError>)
    ensures
        err_of(r) == placed_drawing(w@, value::views(args@)),
{
    let id = object_arg(args, 1)?;
    let x = float_arg(args, 2)?;
    let y = float_arg(args, 3)?;
    let width = float_arg(args, 6)?;
    let height = float_arg(args, 7)?;
    Ok((Bounds { x, y, width, height }, id))
}

pub open spec fn receiver_or_zero(args: Seq<ValueView>) -> ObjectId {
    match convert::id_of(value::at(args, 0)) {
        Some(id) => id,
        None => 0,
    }
}

pub open spec fn draw_placed(
    w: WorldView,
    args: Seq<ValueView>,
    answers: Seq<AnswerView>,
) -> Effected {
    match placed_drawing(w, args) {
        Err(e) => (w, Err(e)),
        Ok((bounds, id)) => match image_path(w, id) {
            Some(path) => gives(
                rendered(
                    w,
                    path,
                    host::size_in(answers, 0),
                    bounds,
                    source_region(w, Some(id)),
                    tint(w, Some(receiver_or_zero(args))),
                ),
                ValueView::Void,
            ),
            None => gives(w, ValueView::Void),
        },
    }
}

fn call_draw_placed(w: &mut World, args: &Vec<Value>, answers: &Answers) -> (r: Result<
    Value,
    VmError,
>)
    ensures
        (final(w)@, error::outcome(r)) == draw_placed(
            old(w)@,
            value::views(args@),
            host::answers_view(answers@),
        ),
{
    let (bounds, id) = read_placed_drawing(args, w)?;
    match find_image_path(w, id) {
        Some(path) => {
            let batch: ObjectId = match object_id(value_at(args, 0)) {
                Some(id) => id,
                None => 0,
            };
            let part = find_source_region(w, Some(id));
            let color = get_tint(w, Some(batch));
            let _ = render_asset(w, path, host::get_size(answers, 0), bounds, part, color);
        },
        None => {},
    }
    Ok(Value::Void)
}

/// What is drawn: the second argument, or a sprite itself.
pub open spec fn drawn_thing(is_sprite: bool, args: Seq<ValueView>) -> Option<ObjectId> {
    match convert::id_of(value::at(args, 1)) {
        Some(id) => Some(id),
        None => if is_sprite {
            convert::id_of(value::at(args, 0))
        } else {
            None
        },
    }
}

fn find_drawn_thing(is_sprite: bool, args: &Vec<Value>) -> (r: Option<ObjectId>)
    ensures
        r == drawn_thing(is_sprite, value::views(args@)),
{
    match object_id(value_at(args, 1)) {
        Some(id) => Some(id),
        None => if is_sprite {
            object_id(value_at(args, 0))
        } else {
            None
        },
    }
}

pub open spec fn thing_path(w: WorldView, id: Option<ObjectId>) -> Option<Seq<char>> {
    match id {
        Some(id) => image_path(w, id),
        None => None,
    }
}

fn find_thing_path(w: &World, id: Option<ObjectId>) -> (r: Option<String>)
    ensures
        world::some_string(r) == thing_path(w@, id),
{
    match id {
        Some(id) => find_image_path(w, id),
        None => None,
    }
}

/// Drawing a thing, or a plain rectangle where it has no image that can be drawn.
#[verifier::opaque]
pub open spec fn draw_thing(
    w: WorldView,
    is_sprite: bool,
    args: Seq<ValueView>,
    answers: Seq<AnswerView>,
) -> WorldView {
    let bounds = bounds_of(w, args, host::size_in(answers, 0));
    let id = drawn_thing(is_sprite, args);
    let size = host::size_in(answers, image_answer(w, args));
    match (thing_path(w, id), size) {
        (Some(path), Some(_)) => rendered(
            w,
            path,
            size,
            bounds,
            source_region(w, id),
            tint(w, id),
        ),
        _ => w.did(EffectView::DrawQuad { bounds, color: color::opaque_of(220, 235, 240) }),
    }
}

fn call_draw_thing(w: &mut World, is_sprite: bool, args: &Vec<Value>, answers: &Answers)
    ensures
        final(w)@ == draw_thing(
            old(w)@,
            is_sprite,
            value::views(args@),
            host::answers_view(answers@),
        ),
{
    proof {
        reveal(draw_thing);
    }
    let bounds = draw_bounds(w, args, host::get_size(answers, 0));
    let id = find_drawn_thing(is_sprite, args);
    let index = image_answer_index(w, args);
    let size = host::get_size(answers, index);
    match (find_thing_path(w, id), size) {
        (Some(path), Some(_)) => {
            let part = find_source_region(w, id);
            let color = get_tint(w, id);
            let _ = render_asset(w, path, size, bounds, part, color);
        },
        _ => w.perform(Effect::DrawQuad { bounds, color: opaque_color(220, 235, 240) }),
    }
}

// `Sprite`.

/// Fields set one after the other from arguments that must be numbers; those before one that
/// is none are set.
pub open spec fn set_singles(
    w: WorldView,
    id: ObjectId,
    names: Seq<Seq<char>>,
    args: Seq<ValueView>,
) -> Effected
    decreases names.len(),
{
    if names.len() == 0 {
        gives(w, ValueView::Void)
    } else {
        match set_singles(w, id, names.drop_last(), args) {
            (before, Err(e)) => (before, Err(e)),
            (before, Ok(_)) => match convert::single_arg(args, names.len() as int) {
                Err(e) => (before, Err(e)),
                Ok(n) => gives(
                    before.with_field(id, names.last(), ValueView::Float(n)),
                    ValueView::Void,
                ),
            },
        }
    }
}

fn call_set_singles(w: &mut World, id: ObjectId, names: &Vec<&str>, args: &Vec<Value>) -> (r: Result<
    Value,
    VmError,
>)
    requires
        names.len() < 10,
    ensures
        (final(w)@, error::outcome(r)) == set_singles(
            old(w)@,
            id,
            names@.map_values(|s: &str| s@),
            value::views(args@),
        ),
{
    let ghost all = names@.map_values(|s: &str| s@);
    let ghost start = w@;
    let mut i: usize = 0;
    assert(all.take(0) =~= Seq::empty());
    while i < names.len()
        invariant
            i <= names.len() < 10,
            start == old(w)@,
            all == names@.map_values(|s: &str| s@),
            set_singles(start, id, all.take(i as int), value::views(args@)) == gives(
                w@,
                ValueView::Void,
            ),
        decreases names.len() - i,
    {
        assert(all.take(i as int + 1).drop_last() =~= all.take(i as int));
        match float_arg(args, i + 1) {
            Ok(n) => w.set_object_field(id, names[i], Value::Float(n)),
            Err(e) => {
                proof {
                    lemma_singles_stop(start, id, all, i as int + 1, value::views(args@));
                }
                return Err(e);
            },
        }
        i += 1;
    }
    assert(all.take(i as int) =~= all);
    Ok(Value::Void)
}

/// An argument that is no number is the error of every longer list.
proof fn lemma_singles_stop(
    w: WorldView,
    id: ObjectId,
    names: Seq<Seq<char>>,
    n: int,
    args: Seq<ValueView>,
)
    requires
        0 <= n <= names.len(),
        set_singles(w, id, names.take(n), args).1 is Err,
    ensures
        set_singles(w, id, names, args) == set_singles(w, id, names.take(n), args),
    decreases names.len(),
{
    if n == names.len() {
        assert(names.take(n) =~= names);
    } else {
        assert(names.drop_last().take(n) =~= names.take(n));
        lemma_singles_stop(w, id, names.drop_last(), n, args);
    }
}

/// The fields that a method sets, in the order of its arguments.
pub open spec fn set_fields(method: Seq<char>) -> Seq<Seq<char>> {
    if method == "setPosition"@ {
        seq!["x"@, "y"@]
    } else if method == "setSize"@ {
        seq!["width"@, "height"@]
    } else {
        seq!["x"@, "y"@, "width"@, "height"@]
    }
}

/// A new sprite takes over what it shows, but for the path of its own.
#[verifier::opaque]
pub open spec fn init_sprite(w: WorldView, args: Seq<ValueView>) -> Effected {
    match convert::reference_arg(args, 0) {
        Err(e) => (w, Err(e)),
        Ok(sprite) => match convert::id_of(value::at(args, 1)) {
            None => gives(w, ValueView::Void),
            Some(source) => gives(
                sized_like(
                    w.copied_field(source, sprite, "asset_path"@).copied_field(
                        source,
                        sprite,
                        "region_x"@,
                    ).copied_field(source, sprite, "region_y"@).copied_field(
                        source,
                        sprite,
                        "region_width"@,
                    ).copied_field(source, sprite, "region_height"@),
                    source,
                    sprite,
                ),
                ValueView::Void,
            ),
        },
    }
}

fn call_init_sprite(w: &mut World, args: &Vec<Value>) -> (r: Result<Value, VmError>)
    ensures
        (final(w)@, error::outcome(r)) == init_sprite(old(w)@, value::views(args@)),
{
    proof {
        reveal(init_sprite);
    }
    let sprite = object_arg(args, 0)?;
    match object_id(value_at(args, 1)) {
        None => {},
        Some(source) => {
            w.copy_field(source, sprite, "asset_path");
            w.copy_field(source, sprite, "region_x");
            w.copy_field(source, sprite, "region_y");
            w.copy_field(source, sprite, "region_width");
            w.copy_field(source, sprite, "region_height");
            size_like(w, source, sprite);
        },
    }
    Ok(Value::Void)
}

#[verifier::opaque]
pub open spec fn set_shown(w: WorldView, args: Seq<ValueView>) -> Effected {
    match convert::reference_arg(args, 0) {
        Err(e) => (w, Err(e)),
        Ok(sprite) => match convert::id_of(value::at(args, 1)) {
            None => gives(w, ValueView::Void),
            Some(source) => gives(
                sized_like(w.copied_drawable(source, sprite), source, sprite),
                ValueView::Void,
            ),
        },
    }
}

fn call_set_shown(w: &mut World, args: &Vec<Value>) -> (r: Result<Value, VmError>)
    ensures
        (final(w)@, error::outcome(r)) == set_shown(old(w)@, value::views(args@)),
{
    proof {
        reveal(set_shown);
    }
    let sprite = object_arg(args, 0)?;
    match object_id(value_at(args, 1)) {
        None => {},
        Some(source) => {
            w.copy_drawable_fields(source, sprite);
            size_like(w, source, sprite);
        },
    }
    Ok(Value::Void)
}

/// Scaling sets the size from that of the region.
pub open spec fn scaled(w: WorldView, id: ObjectId, x: u32, y: u32) -> WorldView {
    let set = w.with_field(id, "scale_x"@, ValueView::Float(x)).with_field(
        id,
        "scale_y"@,
        ValueView::Float(y),
    );
    let wide = match set.field_single(id, "region_width"@) {
        Some(n) => set.with_field(
            id,
            "width"@,
            ValueView::Float(arith::single_product(n, float::single_magnitude(x) as u32)),
        ),
        None => set,
    };
    match wide.field_single(id, "region_height"@) {
        Some(n) => wide.with_field(
            id,
            "height"@,
            ValueView::Float(arith::single_product(n, float::single_magnitude(y) as u32)),
        ),
        None => wide,
    }
}

#[verifier::opaque]
pub open spec fn set_scale(w: WorldView, args: Seq<ValueView>) -> Effected {
    match convert::reference_arg(args, 0) {
        Err(e) => (w, Err(e)),
        Ok(id) => match convert::single_arg(args, 1) {
            Err(e) => (w, Err(e)),
            Ok(x) => if args.len() > 2 {
                match convert::single_arg(args, 2) {
                    Err(e) => (w, Err(e)),
                    Ok(y) => gives(scaled(w, id, x, y), ValueView::Void),
                }
            } else {
                gives(scaled(w, id, x, x), ValueView::Void)
            },
        },
    }
}

fn call_set_scale(w: &mut World, args: &Vec<Value>) -> (r: Result<Value, VmError>)
    ensures
        (final(w)@, error::outcome(r)) == set_scale(old(w)@, value::views(args@)),
{
    proof {
        reveal(set_scale);
    }
    let id = object_arg(args, 0)?;
    let x = float_arg(args, 1)?;
    let y = if args.len() > 2 {
        float_arg(args, 2)?
    } else {
        x
    };
    w.set_object_field(id, "scale_x", Value::Float(x));
    w.set_object_field(id, "scale_y", Value::Float(y));
    match w.object_field_float(id, "region_width") {
        Some(n) => w.set_object_field(
            id,
            "width",
            Value::Float(arith::single_multiply(n, float::single_absolute(x))),
        ),
        None => {},
    }
    match w.object_field_float(id, "region_height") {
        Some(n) => w.set_object_field(
            id,
            "height",
            Value::Float(arith::single_multiply(n, float::single_absolute(y))),
        ),
        None => {},
    }
    Ok(Value::Void)
}

pub open spec fn sprite_getter(method: Seq<char>) -> Option<(Seq<char>, u32)> {
    if method == "getX"@ {
        Some(("x"@, 0))
    } else if method == "getY"@ {
        Some(("y"@, 0))
    } else if method == "getWidth"@ {
        Some(("width"@, 0))
    } else if method == "getHeight"@ {
        Some(("height"@, 0))
    } else if method == "getRotation"@ {
        Some(("rotation"@, 0))
    } else if method == "getScaleX"@ {
        Some(("scale_x"@, 0x3f80_0000))
    } else if method == "getScaleY"@ {
        Some(("scale_y"@, 0x3f80_0000))
    } else {
        None
    }
}

pub open spec fn getter_view(r: Option<(&str, u32)>) -> Option<(Seq<char>, u32)> {
    match r {
        Some((s, n)) => Some((s@, n)),
        None => None,
    }
}

fn find_getter(method: &str) -> (r: Option<(&'static str, u32)>)
    ensures
        getter_view(r) == sprite_getter(method@),
{
    if text::same(method, "getX") {
        Some(("x", 0))
    } else if text::same(method, "getY") {
        Some(("y", 0))
    } else if text::same(method, "getWidth") {
        Some(("width", 0))
    } else if text::same(method, "getHeight") {
        Some(("height", 0))
    } else if text::same(method, "getRotation") {
        Some(("rotation", 0))
    } else if text::same(method, "getScaleX") {
        Some(("scale_x", 0x3f80_0000))
    } else if text::same(method, "getScaleY") {
        Some(("scale_y", 0x3f80_0000))
    } else {
        None
    }
}

pub open spec fn sprite(
    w: WorldView,
    method: Seq<char>,
    args: Seq<ValueView>,
    answers: Seq<AnswerView>,
) -> Option<Effected> {
    if method == "<init>"@ {
        Some(init_sprite(w, args))
    } else if method == "setOrigin"@ || method == "setRotation"@ || method == "translate"@ || method
        == "rotate"@ {
        Some(gives(w, ValueView::Void))
    } else if method == "setRegion"@ || method == "setTexture"@ {
        Some(set_shown(w, args))
    } else if method == "setColor"@ {
        Some(set_color(w, args))
    } else if method == "setPosition"@ || method == "setSize"@ || method == "setBounds"@ {
        match convert::reference_arg(args, 0) {
            Err(e) => Some((w, Err(e))),
            Ok(id) => Some(set_singles(w, id, set_fields(method), args)),
        }
    } else if method == "setScale"@ {
        Some(set_scale(w, args))
    } else if sprite_getter(method) is Some {
        match convert::reference_arg(args, 0) {
            Err(e) => Some((w, Err(e))),
            Ok(id) => Some(
                gives(
                    w,
                    ValueView::Float(
                        single_or(
                            w.field_single(id, (sprite_getter(method)->0).0),
                            (sprite_getter(method)->0).1,
                        ),
                    ),
                ),
            ),
        }
    } else if method == "getColor"@ {
        Some(application::makes(w, "Lcom/badlogic/gdx/graphics/Color;"@))
    } else if method == "draw"@ {
        match convert::reference_arg(args, 0) {
            Err(e) => Some((w, Err(e))),
            Ok(id) => Some(gives(draw_sprite(w, id, answers), ValueView::Void)),
        }
    } else if method == "render"@ {
        Some(gives(draw_thing(w, true, args, answers), ValueView::Void))
    } else {
        None
    }
}

fn call_set_fields(w: &mut World, method: &str, id: ObjectId, args: &Vec<Value>) -> (r: Result<
    Value,
    VmError,
>)
    ensures
        (final(w)@, error::outcome(r)) == set_singles(
            old(w)@,
            id,
            set_fields(method@),
            value::views(args@),
        ),
{
    let names: Vec<&str> = if text::same(method, "setPosition") {
        vec!["x", "y"]
    } else if text::same(method, "setSize") {
        vec!["width", "height"]
    } else {
        vec!["x", "y", "width", "height"]
    };
    assert(names@.map_values(|s: &str| s@) =~= set_fields(method@));
    call_set_singles(w, id, &names, args)
}

fn call_sprite(w: &mut World, method: &str, args: &Vec<Value>, answers: &Answers) -> (r: Option<
    Result<Value, VmError>,
>)
    ensures
        effected(final(w)@, r) == sprite(
            old(w)@,
            method@,
            value::views(args@),
            host::answers_view(answers@),
        ),
        r is None ==> final(w)@ == old(w)@,
{
    if text::same(method, "<init>") {
        Some(call_init_sprite(w, args))
    } else if text::same(method, "setOrigin") || text::same(method, "setRotation") || text::same(
        method,
        "translate",
    ) || text::same(method, "rotate") {
        Some(Ok(Value::Void))
    } else if text::same(method, "setRegion") || text::same(method, "setTexture") {
        Some(call_set_shown(w, args))
    } else if text::same(method, "setColor") {
        Some(call_set_color(w, args))
    } else if text::same(method, "setPosition") || text::same(method, "setSize") || text::same(
        method,
        "setBounds",
    ) {
        match object_arg(args, 0) {
            Err(e) => Some(Err(e)),
            Ok(id) => Some(call_set_fields(w, method, id, args)),
        }
    } else if text::same(method, "setScale") {
        Some(call_set_scale(w, args))
    } else {
        match find_getter(method) {
            Some((name, otherwise)) => {
                return match object_arg(args, 0) {
                    Err(e) => Some(Err(e)),
                    Ok(id) => Some(Ok(Value::Float(field_or(w, id, name, otherwise)))),
                };
            },
            None => {},
        }
        if text::same(method, "getColor") {
            Some(make(w, "Lcom/badlogic/gdx/graphics/Color;"))
        } else if text::same(method, "draw") {
            match object_arg(args, 0) {
                Err(e) => Some(Err(e)),
                Ok(id) => {
                    call_draw_sprite(w, id, answers);
                    Some(Ok(Value::Void))
                },
            }
        } else if text::same(method, "render") {
            call_draw_thing(w, true, args, answers);
            Some(Ok(Value::Void))
        } else {
            None
        }
    }
}

// `SpriteBatch` and `BitmapFont`.

pub open spec fn quiet_batch(method: Seq<char>) -> bool {
    method == "begin"@ || method == "end"@ || method == "dispose"@ || method == "enableBlending"@
        || method == "disableBlending"@ || method == "setProjectionMatrix"@ || method
        == "setBlendFunction"@ || method == "flush"@
}

fn is_quiet_batch(method: &str) -> (r: bool)
    ensures
        r == quiet_batch(method@),
{
    text::same(method, "begin") || text::same(method, "end") || text::same(method, "dispose")
        || text::same(method, "enableBlending") || text::same(method, "disableBlending")
        || text::same(method, "setProjectionMatrix") || text::same(method, "setBlendFunction")
        || text::same(method, "flush")
}

pub open spec fn batch(
    w: WorldView,
    method: Seq<char>,
    args: Seq<ValueView>,
    answers: Seq<AnswerView>,
) -> Option<Effected> {
    if method == "getColor"@ {
        Some(application::makes(w, "Lcom/badlogic/gdx/graphics/Color;"@))
    } else if quiet_batch(method) {
        Some(gives(w, ValueView::Void))
    } else if method == "setColor"@ {
        Some(set_color(w, args))
    } else if method == "draw"@ {
        if args.len() >= 10 {
            Some(draw_placed(w, args, answers))
        } else {
            Some(gives(draw_thing(w, false, args, answers), ValueView::Void))
        }
    } else {
        None
    }
}

fn call_batch(w: &mut World, method: &str, args: &Vec<Value>, answers: &Answers) -> (r: Option<
    Result<Value, VmError>,
>)
    ensures
        effected(final(w)@, r) == batch(
            old(w)@,
            method@,
            value::views(args@),
            host::answers_view(answers@),
        ),
        r is None ==> final(w)@ == old(w)@,
{
    if text::same(method, "getColor") {
        Some(make(w, "Lcom/badlogic/gdx/graphics/Color;"))
    } else if is_quiet_batch(method) {
        Some(Ok(Value::Void))
    } else if text::same(method, "setColor") {
        Some(call_set_color(w, args))
    } else if text::same(method, "draw") {
        if args.len() >= 10 {
            Some(call_draw_placed(w, args, answers))
        } else {
            call_draw_thing(w, false, args, answers);
            Some(Ok(Value::Void))
        }
    } else {
        None
    }
}

// All of them.

/// What has to be asked before something can be drawn or measured.
pub open spec fn question(
    w: WorldView,
    class_name: Seq<char>,
    method: Seq<char>,
    args: Seq<ValueView>,
    answers: Seq<AnswerView>,
) -> Option<QueryView> {
    if class_name == "Lcom/badlogic/gdx/graphics/g2d/TextureAtlas;"@ {
        atlas_question(w, method, args, answers)
    } else if class_name == "Lcom/badlogic/gdx/graphics/Texture;"@ {
        texture_question(w, method, args, answers)
    } else if class_name == "Lcom/badlogic/gdx/graphics/g2d/TextureRegion;"@ {
        if method == "<init>"@ {
            region_question(w, args, answers, false)
        } else {
            None
        }
    } else if class_name == "Lcom/badlogic/gdx/graphics/g2d/TextureAtlas$AtlasRegion;"@ {
        if method == "<init>"@ {
            region_question(w, args, answers, true)
        } else {
            None
        }
    } else if class_name == "Lcom/badlogic/gdx/graphics/g2d/Sprite;"@ {
        if method == "draw"@ {
            match convert::reference_arg(args, 0) {
                Err(_) => None,
                Ok(id) => drawing_question(
                    w,
                    seq![ValueView::Object(id)],
                    image_path(w, id),
                    answers,
                ),
            }
        } else if method == "render"@ {
            drawing_question(w, args, thing_path(w, drawn_thing(true, args)), answers)
        } else {
            None
        }
    } else if class_name == "Lcom/badlogic/gdx/graphics/g2d/SpriteBatch;"@ && method == "draw"@
        && args.len() >= 10 {
        match placed_drawing(w, args) {
            Err(_) => None,
            Ok((_, id)) => if answers.len() == 0 && image_path(w, id) is Some {
                Some(QueryView::Image(image_path(w, id)->0))
            } else {
                None
            },
        }
    } else if (class_name == "Lcom/badlogic/gdx/graphics/g2d/SpriteBatch;"@ || class_name
        == "Lcom/badlogic/gdx/graphics/g2d/BitmapFont;"@) && method == "draw"@ {
        drawing_question(w, args, thing_path(w, drawn_thing(false, args)), answers)
    } else {
        None
    }
}

pub fn ask(w: &World, class_name: &str, method: &str, args: &Vec<Value>, answers: &Answers) -> (r:
    Option<Query>)
    ensures
        host::asked(r) == question(
            w@,
            class_name@,
            method@,
            value::views(args@),
            host::answers_view(answers@),
        ),
{
    if text::same(class_name, "Lcom/badlogic/gdx/graphics/g2d/TextureAtlas;") {
        ask_atlas(w, method, args, answers)
    } else if text::same(class_name, "Lcom/badlogic/gdx/graphics/Texture;") {
        ask_texture(w, method, args, answers)
    } else if text::same(class_name, "Lcom/badlogic/gdx/graphics/g2d/TextureRegion;") {
        if text::same(method, "<init>") {
            ask_region(w, args, answers, false)
        } else {
            None
        }
    } else if text::same(
        class_name,
        "Lcom/badlogic/gdx/graphics/g2d/TextureAtlas$AtlasRegion;",
    ) {
        if text::same(method, "<init>") {
            ask_region(w, args, answers, true)
        } else {
            None
        }
    } else if text::same(class_name, "Lcom/badlogic/gdx/graphics/g2d/Sprite;") {
        if text::same(method, "draw") {
            match object_arg(args, 0) {
                Err(_) => None,
                Ok(id) => {
                    let sprite = alone(id);
                    ask_drawing(w, &sprite, find_image_path(w, id), answers)
                },
            }
        } else if text::same(method, "render") {
            let path = find_thing_path(w, find_drawn_thing(true, args));
            ask_drawing(w, args, path, answers)
        } else {
            None
        }
    } else if text::same(class_name, "Lcom/badlogic/gdx/graphics/g2d/SpriteBatch;") && text::same(
        method,
        "draw",
    ) && args.len() >= 10 {
        match read_placed_drawing(args, w) {
            Err(_) => None,
            Ok((_, id)) => if answers.len() == 0 {
                match find_image_path(w, id) {
                    Some(path) => Some(Query::Image(path)),
                    None => None,
                }
            } else {
                None
            },
        }
    } else if (text::same(class_name, "Lcom/badlogic/gdx/graphics/g2d/SpriteBatch;") || text::same(
        class_name,
        "Lcom/badlogic/gdx/graphics/g2d/BitmapFont;",
    )) && text::same(method, "draw") {
        let path = find_thing_path(w, find_drawn_thing(false, args));
        ask_drawing(w, args, path, answers)
    } else {
        None
    }
}

pub open spec fn performed(
    w: WorldView,
    class_name: Seq<char>,
    method: Seq<char>,
    args: Seq<ValueView>,
    answers: Seq<AnswerView>,
) -> Option<Effected> {
    if class_name == "Lcom/badlogic/gdx/graphics/g2d/TextureAtlas;"@ {
        atlas(w, method, args, answers)
    } else if class_name == "Lcom/badlogic/gdx/graphics/Texture;"@ {
        texture(w, method, args, answers)
    } else if class_name == "Lcom/badlogic/gdx/graphics/g2d/TextureRegion;"@ {
        region(w, false, method, args, answers)
    } else if class_name == "Lcom/badlogic/gdx/graphics/g2d/TextureAtlas$AtlasRegion;"@ {
        region(w, true, method, args, answers)
    } else if class_name == "Lcom/badlogic/gdx/graphics/g2d/Sprite;"@ {
        sprite(w, method, args, answers)
    } else if class_name == "Lcom/badlogic/gdx/graphics/g2d/SpriteBatch;"@ {
        batch(w, method, args, answers)
    } else if class_name == "Lcom/badlogic/gdx/graphics/g2d/BitmapFont;"@ {
        if method == "draw"@ {
            Some(gives(draw_thing(w, false, args, answers), ValueView::Void))
        } else {
            None
        }
    } else {
        None
    }
}

pub fn perform(
    w: &mut World,
    class_name: &str,
    method: &str,
    args: &Vec<Value>,
    answers: &Answers,
) -> (r: Option<Result<Value, VmError>>)
    ensures
        effected(final(w)@, r) == performed(
            old(w)@,
            class_name@,
            method@,
            value::views(args@),
            host::answers_view(answers@),
        ),
        r is None ==> final(w)@ == old(w)@,
{
    if text::same(class_name, "Lcom/badlogic/gdx/graphics/g2d/TextureAtlas;") {
        call_atlas(w, method, args, answers)
    } else if text::same(class_name, "Lcom/badlogic/gdx/graphics/Texture;") {
        call_texture(w, method, args, answers)
    } else if text::same(class_name, "Lcom/badlogic/gdx/graphics/g2d/TextureRegion;") {
        call_region(w, false, method, args, answers)
    } else if text::same(
        class_name,
        "Lcom/badlogic/gdx/graphics/g2d/TextureAtlas$AtlasRegion;",
    ) {
        call_region(w, true, method, args, answers)
    } else if text::same(class_name, "Lcom/badlogic/gdx/graphics/g2d/Sprite;") {
        call_sprite(w, method, args, answers)
    } else if text::same(class_name, "Lcom/badlogic/gdx/graphics/g2d/SpriteBatch;") {
        call_batch(w, method, args, answers)
    } else if text::same(class_name, "Lcom/badlogic/gdx/graphics/g2d/BitmapFont;") {
        if text::same(method, "draw") {
            call_draw_thing(w, false, args, answers);
            Some(Ok(Value::Void))
        } else {
            None
        }
    } else {
        None
    }
}

} // verus!
