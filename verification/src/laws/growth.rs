//! The heap never shrinks, and what has been done stays done.

use vstd::prelude::*;

use crate::code::ActivationView;
use crate::dex::DexFile;
use crate::framework::activity;
use crate::framework::dispatch;
use crate::framework::graphics;
use crate::framework::lists;
use crate::framework::objects;
use crate::framework::sorting;
use crate::framework::strings;
use crate::framework::system;
use crate::gdx;
use crate::gdx::application;
use crate::gdx::gl;
use crate::gdx::sprites;
use crate::host;
use crate::host::AnswerView;
use crate::interp::execute;
use crate::text;
use crate::value;
use crate::value::{ObjectId, ValueView};
use crate::world;
use crate::world::WorldView;

verus! {

/// Whether a world comes after another: every object is still there, what was done before is
/// still the beginning of what was done, and frames are rendered or not, as before.
pub open spec fn follows(before: WorldView, after: WorldView) -> bool {
    &&& before.heap.len() <= after.heap.len()
    &&& before.effects.len() <= after.effects.len()
    &&& forall|i: int|
        0 <= i < before.effects.len() ==> #[trigger] after.effects[i] == before.effects[i]
    &&& before.frame_mode == after.frame_mode
}

proof fn lemma_strings_made(w: WorldView, texts: Seq<Seq<char>>)
    ensures
        follows(w, system::strings_made(w, texts).0),
    decreases texts.len(),
{
    if texts.len() > 0 {
        lemma_strings_made(w, texts.drop_last());
    }
}

proof fn lemma_string_array(w: WorldView, texts: Seq<Seq<char>>)
    ensures
        follows(w, system::string_array(w, texts).0),
{
    lemma_strings_made(w, texts);
}

proof fn lemma_by_system(
    w: WorldView,
    class_name: Seq<char>,
    method: Seq<char>,
    args: Seq<ValueView>,
    answers: Seq<AnswerView>,
)
    ensures
        dispatch::performed_by_system(w, class_name, method, args, answers) matches Some(done)
            ==> follows(w, done.0),
{
    lemma_log(w, method, args);
    lemma_sort(w, args, answers);
    lemma_thread(w, method, args);
    lemma_system(w, method, args, answers);
    lemma_intent(w, method, args);
    lemma_context(w, method, args);
    lemma_preferences(w, method, args, answers);
    lemma_resources(w, method, args);
    lemma_editor(w, method, args, answers);
}

proof fn lemma_log(w: WorldView, method: Seq<char>, args: Seq<ValueView>)
    ensures
        follows(w, system::log(w, method, args).0),
{
}

proof fn lemma_sort(w: WorldView, args: Seq<ValueView>, answers: Seq<AnswerView>)
    ensures
        follows(w, sorting::sort(w, args, answers).0),
{
}

proof fn lemma_thread(w: WorldView, method: Seq<char>, args: Seq<ValueView>)
    ensures
        follows(w, system::thread(w, method, args).0),
{
}

proof fn lemma_system(
    w: WorldView,
    method: Seq<char>,
    args: Seq<ValueView>,
    answers: Seq<AnswerView>,
)
    ensures
        follows(w, system::system(w, method, args, answers).0),
{
}

proof fn lemma_intent(w: WorldView, method: Seq<char>, args: Seq<ValueView>)
    ensures
        follows(w, activity::intent(w, method, args).0),
{
}

proof fn lemma_context(w: WorldView, method: Seq<char>, args: Seq<ValueView>)
    ensures
        follows(w, activity::context(w, method, args).0),
{
}

proof fn lemma_preferences(
    w: WorldView,
    method: Seq<char>,
    args: Seq<ValueView>,
    answers: Seq<AnswerView>,
)
    ensures
        follows(w, activity::preferences(w, method, args, answers).0),
{
}

proof fn lemma_resources(w: WorldView, method: Seq<char>, args: Seq<ValueView>)
    ensures
        follows(w, activity::resources(w, method, args).0),
{
    lemma_string_array(w, activity::resource_items(w, args));
}

proof fn lemma_editor(
    w: WorldView,
    method: Seq<char>,
    args: Seq<ValueView>,
    answers: Seq<AnswerView>,
)
    ensures
        follows(w, activity::editor(w, method, args, answers).0),
{
}

proof fn lemma_by_graphics(
    w: WorldView,
    class_name: Seq<char>,
    method: Seq<char>,
    args: Seq<ValueView>,
    answers: Seq<AnswerView>,
)
    ensures
        dispatch::performed_by_graphics(w, class_name, method, args, answers) matches Some(done)
            ==> follows(w, done.0),
{
    lemma_canvas(w, method, args, answers);
    lemma_paint(w, method, args);
    lemma_factory(w, method, args, answers);
    lemma_bitmap(w, method, args);
    lemma_construct(w, class_name, args);
    lemma_get_class(w, args);
    lemma_view_call(w, method, args, answers);
    lemma_media(w, method, args);
    lemma_file(w, method, args);
}

proof fn lemma_canvas(
    w: WorldView,
    method: Seq<char>,
    args: Seq<ValueView>,
    answers: Seq<AnswerView>,
)
    ensures
        follows(w, graphics::canvas(w, method, args, answers).0),
{
}

proof fn lemma_paint(w: WorldView, method: Seq<char>, args: Seq<ValueView>)
    ensures
        follows(w, graphics::paint(w, method, args).0),
{
}

proof fn lemma_factory(
    w: WorldView,
    method: Seq<char>,
    args: Seq<ValueView>,
    answers: Seq<AnswerView>,
)
    ensures
        follows(w, graphics::factory(w, method, args, answers).0),
{
}

proof fn lemma_bitmap(w: WorldView, method: Seq<char>, args: Seq<ValueView>)
    ensures
        follows(w, graphics::bitmap(w, method, args).0),
{
    match crate::convert::reference_arg(args, 0) {
        Ok(source) => {
            let made = w.bitmap(
                graphics::int_or(w.field_int(source, "width"@), 320),
                graphics::int_or(w.field_int(source, "height"@), 480),
            );
            assert(follows(w, made));
            lemma_copied(made, source, w.fresh());
        },
        Err(_) => {},
    }
}

proof fn lemma_construct(w: WorldView, class_name: Seq<char>, args: Seq<ValueView>)
    ensures
        follows(w, objects::construct(w, class_name, args)),
{
}

proof fn lemma_get_class(w: WorldView, args: Seq<ValueView>)
    ensures
        follows(w, objects::get_class(w, args).0),
{
}

proof fn lemma_view_call(
    w: WorldView,
    method: Seq<char>,
    args: Seq<ValueView>,
    answers: Seq<AnswerView>,
)
    ensures
        follows(w, objects::view_call(w, method, args, answers).0),
{
}

proof fn lemma_media(w: WorldView, method: Seq<char>, args: Seq<ValueView>)
    ensures
        follows(w, objects::media(w, method, args).0),
{
}

proof fn lemma_file(w: WorldView, method: Seq<char>, args: Seq<ValueView>)
    ensures
        follows(w, objects::file(w, method, args).0),
{
}

proof fn lemma_by_lists(
    w: WorldView,
    class_name: Seq<char>,
    method: Seq<char>,
    args: Seq<ValueView>,
    answers: Seq<AnswerView>,
)
    ensures
        dispatch::performed_by_lists(w, class_name, method, args, answers) matches Some(done)
            ==> follows(w, done.0),
{
    lemma_new_array(w, args);
    lemma_boxes(w, method, args, answers);
    lemma_string(w, method, args, answers);
    if args.len() > 0 && args[0] is Object {
        lemma_builder(w, args[0]->Object_0, method, args, answers);
    }
    lemma_list(w, method, args);
    lemma_class(w, method, args);
    lemma_decimal_format(w, method, args, answers);
    lemma_random(w, method, args);
    lemma_bundle(w, method, args);
}

proof fn lemma_array_made(w: WorldView, component: Seq<char>, dims: Seq<u64>)
    ensures
        follows(w, lists::array_made(w, component, dims).0),
    decreases dims.len(), 0nat, 0nat,
{
    if dims.len() > 1 {
        lemma_rows_made(w, component, dims.skip(1), dims[0] as nat);
    }
}

proof fn lemma_rows_made(w: WorldView, component: Seq<char>, dims: Seq<u64>, count: nat)
    ensures
        follows(w, lists::rows_made(w, component, dims, count).0),
    decreases dims.len(), 1nat, count,
{
    if count > 0 {
        lemma_rows_made(w, component, dims, (count - 1) as nat);
        let before = lists::rows_made(w, component, dims, (count - 1) as nat).0;
        lemma_array_made(before, component, dims);
    }
}

proof fn lemma_new_array(w: WorldView, args: Seq<ValueView>)
    ensures
        follows(w, lists::new_array(w, args).0),
{
    match lists::dimensions(w, args) {
        Ok(dims) => lemma_array_made(w, lists::component(w, value::at(args, 0)), dims),
        Err(_) => {},
    }
}

proof fn lemma_boxes(
    w: WorldView,
    method: Seq<char>,
    args: Seq<ValueView>,
    answers: Seq<AnswerView>,
)
    ensures
        follows(w, strings::boxes(w, method, args, answers).0),
{
}

proof fn lemma_string(
    w: WorldView,
    method: Seq<char>,
    args: Seq<ValueView>,
    answers: Seq<AnswerView>,
)
    ensures
        follows(w, strings::string(w, method, args, answers).0),
{
    let left = strings::first_text(w, args, answers);
    let right = strings::second_text(w, args, answers);
    lemma_string_array(w, text::singles(left));
    lemma_string_array(w, text::split(left, right));
}

proof fn lemma_builder(
    w: WorldView,
    receiver: ObjectId,
    method: Seq<char>,
    args: Seq<ValueView>,
    answers: Seq<AnswerView>,
)
    ensures
        follows(w, strings::builder(w, receiver, method, args, answers).0),
{
}

proof fn lemma_list(w: WorldView, method: Seq<char>, args: Seq<ValueView>)
    ensures
        follows(w, lists::list(w, method, args).0),
{
}

proof fn lemma_class(w: WorldView, method: Seq<char>, args: Seq<ValueView>)
    ensures
        follows(w, objects::class(w, method, args).0),
{
}

proof fn lemma_decimal_format(
    w: WorldView,
    method: Seq<char>,
    args: Seq<ValueView>,
    answers: Seq<AnswerView>,
)
    ensures
        follows(w, objects::decimal_format(w, method, args, answers).0),
{
}

proof fn lemma_random(w: WorldView, method: Seq<char>, args: Seq<ValueView>)
    ensures
        follows(w, objects::random(w, method, args).0),
{
}

proof fn lemma_bundle(w: WorldView, method: Seq<char>, args: Seq<ValueView>)
    ensures
        follows(w, activity::bundle(w, method, args).0),
{
}

/// No method of the framework loses an object or takes back what has been done.
pub proof fn the_framework_loses_nothing(
    w: WorldView,
    class_name: Seq<char>,
    method: Seq<char>,
    args: Seq<ValueView>,
    answers: Seq<AnswerView>,
)
    ensures
        follows(w, dispatch::performed(w, class_name, method, args, answers).0),
{
    lemma_by_system(w, class_name, method, args, answers);
    lemma_by_graphics(w, class_name, method, args, answers);
    lemma_by_lists(w, class_name, method, args, answers);
}


proof fn lemma_gl(w: WorldView, pipeline: bool, method: Seq<char>, args: Seq<ValueView>)
    ensures
        gl::gl(w, pipeline, method, args) matches Some(done) ==> follows(w, done.0),
{
}

proof fn lemma_by_application(
    w: WorldView,
    class_name: Seq<char>,
    method: Seq<char>,
    args: Seq<ValueView>,
    answers: Seq<AnswerView>,
)
    ensures
        gdx::dispatch::performed_by_application(
            w,
            class_name,
            method,
            args,
            answers,
        ) matches Some(done) ==> follows(w, done.0),
{
    lemma_android(w, method, args, answers);
    lemma_files(w, method, args);
    lemma_handle(w, method, args, answers);
}

proof fn lemma_android(
    w: WorldView,
    method: Seq<char>,
    args: Seq<ValueView>,
    answers: Seq<AnswerView>,
)
    ensures
        application::android(w, method, args, answers) matches Some(done) ==> follows(w, done.0),
        application::android_graphics(w, method, answers) matches Some(done) ==> follows(
            w,
            done.0,
        ),
        application::application(w, method) matches Some(done) ==> follows(w, done.0),
        application::graphics(w, method) matches Some(done) ==> follows(w, done.0),
{
}

proof fn lemma_files(w: WorldView, method: Seq<char>, args: Seq<ValueView>)
    ensures
        application::files(w, method, args) matches Some(done) ==> follows(w, done.0),
{
}

proof fn lemma_handle(
    w: WorldView,
    method: Seq<char>,
    args: Seq<ValueView>,
    answers: Seq<AnswerView>,
)
    ensures
        application::handle(w, method, args, answers) matches Some(done) ==> follows(w, done.0),
{
}

proof fn lemma_field(w: WorldView, id: ObjectId, name: Seq<char>, v: ValueView)
    ensures
        follows(w, w.with_field(id, name, v)),
{
}

proof fn lemma_copied(w: WorldView, source: ObjectId, destination: ObjectId)
    ensures
        follows(w, w.copied_drawable(source, destination)),
{
    reveal(WorldView::copied_drawable);
    let a = w.copied_field(source, destination, "asset_path"@);
    let b = a.copied_field(source, destination, "path"@);
    let c = b.copied_field(source, destination, "region_x"@);
    let d = c.copied_field(source, destination, "region_y"@);
    let e = d.copied_field(source, destination, "region_width"@);
    let f = e.copied_field(source, destination, "region_height"@);
    let g = f.copied_field(source, destination, "width"@);
    assert(follows(w, a));
    assert(follows(w, b));
    assert(follows(w, c));
    assert(follows(w, d));
    assert(follows(w, e));
    assert(follows(w, f));
    assert(follows(w, g));
}

proof fn lemma_sized(w: WorldView, source: ObjectId, sprite: ObjectId)
    ensures
        follows(w, sprites::sized_like(w, source, sprite)),
{
}

proof fn lemma_atlas(
    w: WorldView,
    method: Seq<char>,
    args: Seq<ValueView>,
    answers: Seq<AnswerView>,
)
    ensures
        sprites::atlas(w, method, args, answers) matches Some(done) ==> follows(w, done.0),
        sprites::texture(w, method, args, answers) matches Some(done) ==> follows(w, done.0),
{
    lemma_find_region(w, args, answers);
    lemma_create_sprite(w, args);
}

proof fn lemma_find_region(w: WorldView, args: Seq<ValueView>, answers: Seq<AnswerView>)
    ensures
        follows(w, sprites::find_region(w, args, answers).0),
{
}

proof fn lemma_create_sprite(w: WorldView, args: Seq<ValueView>)
    ensures
        follows(w, sprites::create_sprite(w, args).0),
{
    let made = w.with_object(
        world::instance_of("Lcom/badlogic/gdx/graphics/g2d/Sprite;"@),
    );
    assert(follows(w, made));
    match crate::convert::id_of(value::at(args, 1)) {
        Some(region) => {
            lemma_copied(made, region, w.fresh());
            lemma_sized(made.copied_drawable(region, w.fresh()), region, w.fresh());
        },
        None => {},
    }
}

proof fn lemma_region(
    w: WorldView,
    of_atlas: bool,
    method: Seq<char>,
    args: Seq<ValueView>,
    answers: Seq<AnswerView>,
)
    ensures
        sprites::region(w, of_atlas, method, args, answers) matches Some(done) ==> follows(
            w,
            done.0,
        ),
{
    lemma_init_region(w, args, answers, of_atlas);
    let made = w.with_object(world::instance_of("Lcom/badlogic/gdx/graphics/Texture;"@));
    assert(follows(w, made));
    match crate::convert::reference_arg(args, 0) {
        Ok(id) => lemma_copied(made, id, w.fresh()),
        Err(_) => {},
    }
}

proof fn lemma_init_region(
    w: WorldView,
    args: Seq<ValueView>,
    answers: Seq<AnswerView>,
    of_atlas: bool,
)
    ensures
        follows(w, sprites::init_region(w, args, answers, of_atlas).0),
{
    match (crate::convert::reference_arg(args, 0), crate::convert::id_of(value::at(args, 1))) {
        (Ok(region), Some(source)) => {
            let copied = w.copied_drawable(source, region);
            lemma_copied(w, source, region);
            lemma_field(copied, region, "region_x"@, ValueView::Int(0));
            let placed = copied.with_field(region, "region_x"@, ValueView::Int(0));
            lemma_field(placed, region, "region_y"@, ValueView::Int(0));
            match host::size_in(answers, 0) {
                Some((width, height)) => {
                    lemma_with_size(copied, region, width, height);
                    lemma_with_size(
                        placed.with_field(region, "region_y"@, ValueView::Int(0)),
                        region,
                        width,
                        height,
                    );
                },
                None => {},
            }
        },
        _ => {},
    }
}

proof fn lemma_with_size(w: WorldView, id: ObjectId, width: u32, height: u32)
    ensures
        follows(w, sprites::with_size(w, id, width, height)),
{
}

proof fn lemma_set_singles(
    w: WorldView,
    id: ObjectId,
    names: Seq<Seq<char>>,
    args: Seq<ValueView>,
)
    ensures
        follows(w, sprites::set_singles(w, id, names, args).0),
    decreases names.len(),
{
    if names.len() > 0 {
        lemma_set_singles(w, id, names.drop_last(), args);
    }
}

proof fn lemma_sprite(
    w: WorldView,
    method: Seq<char>,
    args: Seq<ValueView>,
    answers: Seq<AnswerView>,
)
    ensures
        sprites::sprite(w, method, args, answers) matches Some(done) ==> follows(w, done.0),
{
    let receiver = crate::convert::reference_arg(args, 0);
    if method == "<init>"@ {
        lemma_init_sprite(w, args);
    } else if method == "setRegion"@ || method == "setTexture"@ {
        lemma_set_shown(w, args);
    } else if method == "setPosition"@ || method == "setSize"@ || method == "setBounds"@ {
        if receiver is Ok {
            lemma_set_singles(w, receiver->Ok_0, sprites::set_fields(method), args);
        }
    } else if method == "setScale"@ {
        lemma_set_scale(w, args);
    } else if method == "draw"@ {
        if receiver is Ok {
            lemma_draw_sprite(w, receiver->Ok_0, answers);
        }
    } else if method == "render"@ {
        lemma_draw_thing(w, true, args, answers);
    }
}

proof fn lemma_init_sprite(w: WorldView, args: Seq<ValueView>)
    ensures
        follows(w, sprites::init_sprite(w, args).0),
{
    reveal(sprites::init_sprite);
    match (crate::convert::reference_arg(args, 0), crate::convert::id_of(value::at(args, 1))) {
        (Ok(sprite), Some(source)) => {
            let a = w.copied_field(source, sprite, "asset_path"@);
            let b = a.copied_field(source, sprite, "region_x"@);
            let c = b.copied_field(source, sprite, "region_y"@);
            let d = c.copied_field(source, sprite, "region_width"@);
            let e = d.copied_field(source, sprite, "region_height"@);
            assert(follows(w, a));
            assert(follows(w, b));
            assert(follows(w, c));
            assert(follows(w, d));
            assert(follows(w, e));
            lemma_sized(e, source, sprite);
        },
        _ => {},
    }
}

proof fn lemma_set_shown(w: WorldView, args: Seq<ValueView>)
    ensures
        follows(w, sprites::set_shown(w, args).0),
{
    reveal(sprites::set_shown);
    match (crate::convert::reference_arg(args, 0), crate::convert::id_of(value::at(args, 1))) {
        (Ok(sprite), Some(source)) => {
            lemma_copied(w, source, sprite);
            lemma_sized(w.copied_drawable(source, sprite), source, sprite);
        },
        _ => {},
    }
}

proof fn lemma_set_scale(w: WorldView, args: Seq<ValueView>)
    ensures
        follows(w, sprites::set_scale(w, args).0),
{
    reveal(sprites::set_scale);
}

proof fn lemma_draw_sprite(w: WorldView, sprite: ObjectId, answers: Seq<AnswerView>)
    ensures
        follows(w, sprites::draw_sprite(w, sprite, answers)),
{
    reveal(sprites::draw_sprite);
}

proof fn lemma_draw_thing(
    w: WorldView,
    is_sprite: bool,
    args: Seq<ValueView>,
    answers: Seq<AnswerView>,
)
    ensures
        follows(w, sprites::draw_thing(w, is_sprite, args, answers)),
{
    reveal(sprites::draw_thing);
}

proof fn lemma_batch(
    w: WorldView,
    method: Seq<char>,
    args: Seq<ValueView>,
    answers: Seq<AnswerView>,
)
    ensures
        sprites::batch(w, method, args, answers) matches Some(done) ==> follows(w, done.0),
{
    lemma_draw_thing(w, false, args, answers);
}

/// No method of the game library loses an object or takes back what has been done.
pub proof fn the_game_library_loses_nothing(
    w: WorldView,
    steps: usize,
    class_name: Seq<char>,
    method: Seq<char>,
    args: Seq<ValueView>,
    answers: Seq<AnswerView>,
)
    ensures
        follows(w, gdx::dispatch::performed(w, steps, class_name, method, args, answers).0),
{
    lemma_by_application(w, class_name, method, args, answers);
    lemma_gl(w, true, method, args);
    lemma_gl(w, false, method, args);
    lemma_atlas(w, method, args, answers);
    lemma_region(w, true, method, args, answers);
    lemma_region(w, false, method, args, answers);
    lemma_sprite(w, method, args, answers);
    lemma_batch(w, method, args, answers);
    lemma_draw_thing(w, false, args, answers);
}

/// No instruction loses an object or takes back what has been done.
pub proof fn an_instruction_loses_nothing(
    dex: &DexFile,
    words: Seq<u16>,
    w: WorldView,
    a: ActivationView,
    opcode: u8,
    instruction: u16,
)
    ensures
        follows(w, execute::plain_step(dex, words, w, a, opcode, instruction).0),
{
}

} // verus!
