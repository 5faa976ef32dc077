//! Every table of the machine has each key once.

use vstd::prelude::*;

use crate::code::ActivationView;
use crate::dex::{DexFile, Method};
use crate::error::Outcome;
use crate::frames;
use crate::frames::{CodeView, FrameView, HostView, Phase, StatusView};
use crate::framework::activity;
use crate::framework::dispatch;
use crate::framework::graphics;
use crate::framework::lists;
use crate::framework::objects;
use crate::framework::sorting;
use crate::framework::strings;
use crate::framework::system;
use crate::gdx;
use crate::gdx::application;
use crate::gdx::gl;
use crate::gdx::sprites;
use crate::host;
use crate::host::AnswerView;
use crate::interp::calls;
use crate::interp::execute;
use crate::machine::VmView;
use crate::run;
use crate::table;
use crate::table::distinct;
use crate::text;
use crate::value;
use crate::value::{FieldsView, ObjectId, ObjectView, ValueView};
use crate::world;
use crate::world::{FrameworkView, MediaPlayerState, WorldView};

verus! {

pub open spec fn tidy_object(object: ObjectView) -> bool {
    match object {
        ObjectView::Instance { fields, .. } => distinct(fields),
        _ => true,
    }
}

/// Whether no instance has a field twice.
#[verifier::opaque]
pub open spec fn tidy_heap(heap: Seq<ObjectView>) -> bool {
    forall|i: int| 0 <= i < heap.len() ==> tidy_object(#[trigger] heap[i])
}

pub open spec fn tidy_framework(f: FrameworkView) -> bool {
    &&& distinct(f.preferences)
    &&& distinct(f.files)
    &&& distinct(f.system_services)
    &&& distinct(f.content_views)
    &&& distinct(f.media_players)
}

/// Whether every table of a world has each key once.
pub open spec fn tidy(w: WorldView) -> bool {
    &&& tidy_heap(w.heap)
    &&& tidy_framework(w.framework)
    &&& distinct(w.touch_listeners)
    &&& distinct(w.click_listeners)
}

/// Whether a world is as tidy as one before it.
pub open spec fn keeps(before: WorldView, after: WorldView) -> bool {
    tidy(before) ==> tidy(after)
}

proof fn lemma_objects(heap: Seq<ObjectView>, index: int, object: ObjectView)
    requires
        tidy_heap(heap),
        tidy_object(object),
    ensures
        tidy_heap(heap.push(object)),
        0 <= index < heap.len() ==> tidy_heap(heap.update(index, object)),
{
    reveal(tidy_heap);
}

proof fn lemma_with_field(w: WorldView, id: ObjectId, name: Seq<char>, v: ValueView)
    ensures
        keeps(w, w.with_field(id, name, v)),
{
    if tidy(w) {
        match w.object(id) {
            Some(ObjectView::Instance { class_name, fields }) => {
                assert(tidy_object(w.heap[id as int])) by {
                    reveal(tidy_heap);
                }
                table::store_then_lookup(fields, name, v, name);
                lemma_objects(
                    w.heap,
                    id as int,
                    ObjectView::Instance { class_name, fields: table::store(fields, name, v) },
                );
            },
            _ => {},
        }
    }
}

proof fn lemma_without<K, V>(entries: Seq<(K, V)>, key: K)
    requires
        distinct(entries),
    ensures
        distinct(table::without(entries, key)),
{
    let p = table::place(entries, key) as int;
    let rest = table::without(entries, key);
    if p < entries.len() {
        assert forall|i: int, j: int| 0 <= i < j < rest.len() implies (#[trigger] rest[i]).0 != (
        #[trigger] rest[j]).0 by {
            let before = if i < p {
                i
            } else {
                i + 1
            };
            let behind = if j < p {
                j
            } else {
                j + 1
            };
            assert(rest[i] == entries[before] && rest[j] == entries[behind]);
        }
    }
}

/// The changes that worlds are made of.
proof fn lemma_changes()
    ensures
        forall|w: WorldView, id: ObjectId, name: Seq<char>, v: ValueView|
            tidy(w) ==> tidy(#[trigger] w.with_field(id, name, v)),
        forall|w: WorldView, o: ObjectView|
            tidy(w) && tidy_object(o) ==> tidy(#[trigger] w.with_object(o)),
        forall|w: WorldView, id: ObjectId, o: ObjectView|
            tidy(w) && tidy_object(o) ==> tidy(#[trigger] w.replaced(id, o)),
        forall|class_name: Seq<char>| tidy_object(#[trigger] world::instance_of(class_name)),
{
    assert forall|w: WorldView, id: ObjectId, name: Seq<char>, v: ValueView| tidy(w) implies tidy(
        #[trigger] w.with_field(id, name, v),
    ) by {
        lemma_with_field(w, id, name, v);
    }
    assert forall|w: WorldView, o: ObjectView| tidy(w) && tidy_object(o) implies tidy(
        #[trigger] w.with_object(o),
    ) by {
        lemma_objects(w.heap, 0, o);
    }
    assert forall|w: WorldView, id: ObjectId, o: ObjectView|
        tidy(w) && tidy_object(o) implies tidy(#[trigger] w.replaced(id, o)) by {
        lemma_objects(w.heap, id as int, o);
    }
}

/// The changes to the tables of the framework.
proof fn lemma_stores()
    ensures
        forall|t: Seq<((Seq<char>, Seq<char>), Seq<char>)>, k: (Seq<char>, Seq<char>), v: Seq<char>|
            distinct(t) ==> distinct(#[trigger] table::store(t, k, v)),
        forall|t: Seq<(Seq<char>, u32)>, k: Seq<char>, v: u32|
            distinct(t) ==> distinct(#[trigger] table::store(t, k, v)),
        forall|t: Seq<(u32, u32)>, k: u32, v: u32|
            distinct(t) ==> distinct(#[trigger] table::store(t, k, v)),
        forall|t: Seq<(u32, MediaPlayerState)>, k: u32, v: MediaPlayerState|
            distinct(t) ==> distinct(#[trigger] table::store(t, k, v)),
        forall|t: Seq<(u32, MediaPlayerState)>, k: u32|
            distinct(t) ==> distinct(#[trigger] table::without(t, k)),
        forall|t: Seq<(Seq<char>, Seq<u8>)>, k: Seq<char>|
            distinct(t) ==> distinct(#[trigger] table::without(t, k)),
{
    assert forall|
        t: Seq<((Seq<char>, Seq<char>), Seq<char>)>,
        k: (Seq<char>, Seq<char>),
        v: Seq<char>,
    | distinct(t) implies distinct(#[trigger] table::store(t, k, v)) by {
        table::store_then_lookup(t, k, v, k);
    }
    assert forall|t: Seq<(Seq<char>, u32)>, k: Seq<char>, v: u32| distinct(t) implies distinct(
        #[trigger] table::store(t, k, v),
    ) by {
        table::store_then_lookup(t, k, v, k);
    }
    assert forall|t: Seq<(u32, u32)>, k: u32, v: u32| distinct(t) implies distinct(
        #[trigger] table::store(t, k, v),
    ) by {
        table::store_then_lookup(t, k, v, k);
    }
    assert forall|t: Seq<(u32, MediaPlayerState)>, k: u32, v: MediaPlayerState|
        distinct(t) implies distinct(#[trigger] table::store(t, k, v)) by {
        table::store_then_lookup(t, k, v, k);
    }
    assert forall|t: Seq<(u32, MediaPlayerState)>, k: u32| distinct(t) implies distinct(
        #[trigger] table::without(t, k),
    ) by {
        lemma_without(t, k);
    }
    assert forall|t: Seq<(Seq<char>, Seq<u8>)>, k: Seq<char>| distinct(t) implies distinct(
        #[trigger] table::without(t, k),
    ) by {
        lemma_without(t, k);
    }
}

proof fn lemma_strings_made(w: WorldView, texts: Seq<Seq<char>>)
    ensures
        keeps(w, system::strings_made(w, texts).0),
    decreases texts.len(),
{
    lemma_changes();
    if texts.len() > 0 {
        lemma_strings_made(w, texts.drop_last());
    }
}

proof fn lemma_string_array(w: WorldView, texts: Seq<Seq<char>>)
    ensures
        keeps(w, system::string_array(w, texts).0),
{
    lemma_changes();
    lemma_strings_made(w, texts);
}

proof fn lemma_by_system(
    w: WorldView,
    class_name: Seq<char>,
    method: Seq<char>,
    args: Seq<ValueView>,
    answers: Seq<AnswerView>,
)
    ensures
        dispatch::performed_by_system(w, class_name, method, args, answers) matches Some(done)
            ==> keeps(w, done.0),
{
    lemma_changes();
    lemma_log(w, method, args);
    lemma_sort(w, args, answers);
    lemma_thread(w, method, args);
    lemma_system(w, method, args, answers);
    lemma_intent(w, method, args);
    lemma_context(w, method, args);
    lemma_preferences(w, method, args, answers);
    lemma_resources(w, method, args);
    lemma_editor(w, method, args, answers);
}

proof fn lemma_log(w: WorldView, method: Seq<char>, args: Seq<ValueView>)
    ensures
        keeps(w, system::log(w, method, args).0),
{
    lemma_changes();
}

proof fn lemma_sort(w: WorldView, args: Seq<ValueView>, answers: Seq<AnswerView>)
    ensures
        keeps(w, sorting::sort(w, args, answers).0),
{
    lemma_changes();
}

proof fn lemma_thread(w: WorldView, method: Seq<char>, args: Seq<ValueView>)
    ensures
        keeps(w, system::thread(w, method, args).0),
{
    lemma_changes();
}

proof fn lemma_system(
    w: WorldView,
    method: Seq<char>,
    args: Seq<ValueView>,
    answers: Seq<AnswerView>,
)
    ensures
        keeps(w, system::system(w, method, args, answers).0),
{
    lemma_changes();
}

proof fn lemma_intent(w: WorldView, method: Seq<char>, args: Seq<ValueView>)
    ensures
        keeps(w, activity::intent(w, method, args).0),
{
    lemma_changes();
}

proof fn lemma_context(w: WorldView, method: Seq<char>, args: Seq<ValueView>)
    ensures
        keeps(w, activity::context(w, method, args).0),
{
    lemma_changes();
    lemma_stores();
}

proof fn lemma_preferences(
    w: WorldView,
    method: Seq<char>,
    args: Seq<ValueView>,
    answers: Seq<AnswerView>,
)
    ensures
        keeps(w, activity::preferences(w, method, args, answers).0),
{
    lemma_changes();
}

proof fn lemma_resources(w: WorldView, method: Seq<char>, args: Seq<ValueView>)
    ensures
        keeps(w, activity::resources(w, method, args).0),
{
    lemma_changes();
    lemma_string_array(w, activity::resource_items(w, args));
}

proof fn lemma_editor(
    w: WorldView,
    method: Seq<char>,
    args: Seq<ValueView>,
    answers: Seq<AnswerView>,
)
    ensures
        keeps(w, activity::editor(w, method, args, answers).0),
{
    lemma_changes();
    lemma_stores();
}

proof fn lemma_by_graphics(
    w: WorldView,
    class_name: Seq<char>,
    method: Seq<char>,
    args: Seq<ValueView>,
    answers: Seq<AnswerView>,
)
    ensures
        dispatch::performed_by_graphics(w, class_name, method, args, answers) matches Some(done)
            ==> keeps(w, done.0),
{
    lemma_changes();
    lemma_canvas(w, method, args, answers);
    lemma_paint(w, method, args);
    lemma_factory(w, method, args, answers);
    lemma_bitmap(w, method, args);
    lemma_construct(w, class_name, args);
    lemma_get_class(w, args);
    lemma_view_call(w, method, args, answers);
    lemma_media(w, method, args);
    lemma_file(w, method, args);
}

proof fn lemma_canvas(
    w: WorldView,
    method: Seq<char>,
    args: Seq<ValueView>,
    answers: Seq<AnswerView>,
)
    ensures
        keeps(w, graphics::canvas(w, method, args, answers).0),
{
    lemma_changes();
}

proof fn lemma_paint(w: WorldView, method: Seq<char>, args: Seq<ValueView>)
    ensures
        keeps(w, graphics::paint(w, method, args).0),
{
    lemma_changes();
}

proof fn lemma_factory(
    w: WorldView,
    method: Seq<char>,
    args: Seq<ValueView>,
    answers: Seq<AnswerView>,
)
    ensures
        keeps(w, graphics::factory(w, method, args, answers).0),
{
    lemma_changes();
}

proof fn lemma_bitmap(w: WorldView, method: Seq<char>, args: Seq<ValueView>)
    ensures
        keeps(w, graphics::bitmap(w, method, args).0),
{
    lemma_changes();
    match crate::convert::reference_arg(args, 0) {
        Ok(source) => {
            let made = w.bitmap(
                graphics::int_or(w.field_int(source, "width"@), 320),
                graphics::int_or(w.field_int(source, "height"@), 480),
            );
            assert(keeps(w, made));
            lemma_copied(made, source, w.fresh());
        },
        Err(_) => {},
    }
}

proof fn lemma_construct(w: WorldView, class_name: Seq<char>, args: Seq<ValueView>)
    ensures
        keeps(w, objects::construct(w, class_name, args)),
{
    lemma_changes();
}

proof fn lemma_get_class(w: WorldView, args: Seq<ValueView>)
    ensures
        keeps(w, objects::get_class(w, args).0),
{
    lemma_changes();
}

proof fn lemma_view_call(
    w: WorldView,
    method: Seq<char>,
    args: Seq<ValueView>,
    answers: Seq<AnswerView>,
)
    ensures
        keeps(w, objects::view_call(w, method, args, answers).0),
{
    lemma_changes();
    lemma_stores();
}

proof fn lemma_media(w: WorldView, method: Seq<char>, args: Seq<ValueView>)
    ensures
        keeps(w, objects::media(w, method, args).0),
{
    lemma_changes();
    lemma_stores();
}

proof fn lemma_file(w: WorldView, method: Seq<char>, args: Seq<ValueView>)
    ensures
        keeps(w, objects::file(w, method, args).0),
{
    lemma_changes();
    lemma_stores();
}

proof fn lemma_by_lists(
    w: WorldView,
    class_name: Seq<char>,
    method: Seq<char>,
    args: Seq<ValueView>,
    answers: Seq<AnswerView>,
)
    ensures
        dispatch::performed_by_lists(w, class_name, method, args, answers) matches Some(done)
            ==> keeps(w, done.0),
{
    lemma_changes();
    lemma_new_array(w, args);
    lemma_boxes(w, method, args, answers);
    lemma_string(w, method, args, answers);
    if args.len() > 0 && args[0] is Object {
        lemma_builder(w, args[0]->Object_0, method, args, answers);
    }
    lemma_list(w, method, args);
    lemma_class(w, method, args);
    lemma_decimal_format(w, method, args, answers);
    lemma_random(w, method, args);
    lemma_bundle(w, method, args);
}

proof fn lemma_array_made(w: WorldView, component: Seq<char>, dims: Seq<u64>)
    ensures
        keeps(w, lists::array_made(w, component, dims).0),
    decreases dims.len(), 0nat, 0nat,
{
    lemma_changes();
    if dims.len() > 1 {
        lemma_rows_made(w, component, dims.skip(1), dims[0] as nat);
    }
}

proof fn lemma_rows_made(w: WorldView, component: Seq<char>, dims: Seq<u64>, count: nat)
    ensures
        keeps(w, lists::rows_made(w, component, dims, count).0),
    decreases dims.len(), 1nat, count,
{
    lemma_changes();
    if count > 0 {
        lemma_rows_made(w, component, dims, (count - 1) as nat);
        let before = lists::rows_made(w, component, dims, (count - 1) as nat).0;
        lemma_array_made(before, component, dims);
    }
}

proof fn lemma_new_array(w: WorldView, args: Seq<ValueView>)
    ensures
        keeps(w, lists::new_array(w, args).0),
{
    lemma_changes();
    match lists::dimensions(w, args) {
        Ok(dims) => lemma_array_made(w, lists::component(w, value::at(args, 0)), dims),
        Err(_) => {},
    }
}

proof fn lemma_boxes(
    w: WorldView,
    method: Seq<char>,
    args: Seq<ValueView>,
    answers: Seq<AnswerView>,
)
    ensures
        keeps(w, strings::boxes(w, method, args, answers).0),
{
    lemma_changes();
}

proof fn lemma_string(
    w: WorldView,
    method: Seq<char>,
    args: Seq<ValueView>,
    answers: Seq<AnswerView>,
)
    ensures
        keeps(w, strings::string(w, method, args, answers).0),
{
    lemma_changes();
    let left = strings::first_text(w, args, answers);
    let right = strings::second_text(w, args, answers);
    lemma_string_array(w, text::singles(left));
    lemma_string_array(w, text::split(left, right));
}

proof fn lemma_builder(
    w: WorldView,
    receiver: ObjectId,
    method: Seq<char>,
    args: Seq<ValueView>,
    answers: Seq<AnswerView>,
)
    ensures
        keeps(w, strings::builder(w, receiver, method, args, answers).0),
{
    lemma_changes();
}

proof fn lemma_list(w: WorldView, method: Seq<char>, args: Seq<ValueView>)
    ensures
        keeps(w, lists::list(w, method, args).0),
{
    lemma_changes();
}

proof fn lemma_class(w: WorldView, method: Seq<char>, args: Seq<ValueView>)
    ensures
        keeps(w, objects::class(w, method, args).0),
{
    lemma_changes();
}

proof fn lemma_decimal_format(
    w: WorldView,
    method: Seq<char>,
    args: Seq<ValueView>,
    answers: Seq<AnswerView>,
)
    ensures
        keeps(w, objects::decimal_format(w, method, args, answers).0),
{
    lemma_changes();
}

proof fn lemma_random(w: WorldView, method: Seq<char>, args: Seq<ValueView>)
    ensures
        keeps(w, objects::random(w, method, args).0),
{
    lemma_changes();
}

proof fn lemma_bundle(w: WorldView, method: Seq<char>, args: Seq<ValueView>)
    ensures
        keeps(w, activity::bundle(w, method, args).0),
{
    lemma_changes();
}

/// No method of the framework makes a key occur twice.
pub proof fn the_framework_keeps_tables_tidy(
    w: WorldView,
    class_name: Seq<char>,
    method: Seq<char>,
    args: Seq<ValueView>,
    answers: Seq<AnswerView>,
)
    ensures
        keeps(w, dispatch::performed(w, class_name, method, args, answers).0),
{
    lemma_changes();
    lemma_by_system(w, class_name, method, args, answers);
    lemma_by_graphics(w, class_name, method, args, answers);
    lemma_by_lists(w, class_name, method, args, answers);
}


proof fn lemma_gl(w: WorldView, pipeline: bool, method: Seq<char>, args: Seq<ValueView>)
    ensures
        gl::gl(w, pipeline, method, args) matches Some(done) ==> keeps(w, done.0),
{
    lemma_changes();
}

proof fn lemma_by_application(
    w: WorldView,
    class_name: Seq<char>,
    method: Seq<char>,
    args: Seq<ValueView>,
    answers: Seq<AnswerView>,
)
    ensures
        gdx::dispatch::performed_by_application(
            w,
            class_name,
            method,
            args,
            answers,
        ) matches Some(done) ==> keeps(w, done.0),
{
    lemma_changes();
    lemma_android(w, method, args, answers);
    lemma_files(w, method, args);
    lemma_handle(w, method, args, answers);
}

proof fn lemma_android(
    w: WorldView,
    method: Seq<char>,
    args: Seq<ValueView>,
    answers: Seq<AnswerView>,
)
    ensures
        application::android(w, method, args, answers) matches Some(done) ==> keeps(w, done.0),
        application::android_graphics(w, method, answers) matches Some(done) ==> keeps(
            w,
            done.0,
        ),
        application::application(w, method) matches Some(done) ==> keeps(w, done.0),
        application::graphics(w, method) matches Some(done) ==> keeps(w, done.0),
{
    lemma_changes();
}

proof fn lemma_files(w: WorldView, method: Seq<char>, args: Seq<ValueView>)
    ensures
        application::files(w, method, args) matches Some(done) ==> keeps(w, done.0),
{
    lemma_changes();
}

proof fn lemma_handle(
    w: WorldView,
    method: Seq<char>,
    args: Seq<ValueView>,
    answers: Seq<AnswerView>,
)
    ensures
        application::handle(w, method, args, answers) matches Some(done) ==> keeps(w, done.0),
{
    lemma_changes();
}

proof fn lemma_set(w: WorldView, id: ObjectId, name: Seq<char>, v: ValueView)
    ensures
        keeps(w, w.with_field(id, name, v)),
{
    lemma_changes();
}

proof fn lemma_copied(w: WorldView, source: ObjectId, destination: ObjectId)
    ensures
        keeps(w, w.copied_drawable(source, destination)),
{
    lemma_changes();
    reveal(WorldView::copied_drawable);
    let a = w.copied_field(source, destination, "asset_path"@);
    let b = a.copied_field(source, destination, "path"@);
    let c = b.copied_field(source, destination, "region_x"@);
    let d = c.copied_field(source, destination, "region_y"@);
    let e = d.copied_field(source, destination, "region_width"@);
    let f = e.copied_field(source, destination, "region_height"@);
    let g = f.copied_field(source, destination, "width"@);
    assert(keeps(w, a));
    assert(keeps(w, b));
    assert(keeps(w, c));
    assert(keeps(w, d));
    assert(keeps(w, e));
    assert(keeps(w, f));
    assert(keeps(w, g));
}

proof fn lemma_sized(w: WorldView, source: ObjectId, sprite: ObjectId)
    ensures
        keeps(w, sprites::sized_like(w, source, sprite)),
{
    lemma_changes();
}

proof fn lemma_atlas(
    w: WorldView,
    method: Seq<char>,
    args: Seq<ValueView>,
    answers: Seq<AnswerView>,
)
    ensures
        sprites::atlas(w, method, args, answers) matches Some(done) ==> keeps(w, done.0),
        sprites::texture(w, method, args, answers) matches Some(done) ==> keeps(w, done.0),
{
    lemma_changes();
    lemma_find_region(w, args, answers);
    lemma_create_sprite(w, args);
}

proof fn lemma_find_region(w: WorldView, args: Seq<ValueView>, answers: Seq<AnswerView>)
    ensures
        keeps(w, sprites::find_region(w, args, answers).0),
{
    lemma_changes();
}

proof fn lemma_create_sprite(w: WorldView, args: Seq<ValueView>)
    ensures
        keeps(w, sprites::create_sprite(w, args).0),
{
    lemma_changes();
    let made = w.with_object(
        world::instance_of("Lcom/badlogic/gdx/graphics/g2d/Sprite;"@),
    );
    assert(keeps(w, made));
    match crate::convert::id_of(value::at(args, 1)) {
        Some(region) => {
            lemma_copied(made, region, w.fresh());
            lemma_sized(made.copied_drawable(region, w.fresh()), region, w.fresh());
        },
        None => {},
    }
}

proof fn lemma_region(
    w: WorldView,
    of_atlas: bool,
    method: Seq<char>,
    args: Seq<ValueView>,
    answers: Seq<AnswerView>,
)
    ensures
        sprites::region(w, of_atlas, method, args, answers) matches Some(done) ==> keeps(
            w,
            done.0,
        ),
{
    lemma_changes();
    lemma_init_region(w, args, answers, of_atlas);
    let made = w.with_object(world::instance_of("Lcom/badlogic/gdx/graphics/Texture;"@));
    assert(keeps(w, made));
    match crate::convert::reference_arg(args, 0) {
        Ok(id) => lemma_copied(made, id, w.fresh()),
        Err(_) => {},
    }
}

proof fn lemma_init_region(
    w: WorldView,
    args: Seq<ValueView>,
    answers: Seq<AnswerView>,
    of_atlas: bool,
)
    ensures
        keeps(w, sprites::init_region(w, args, answers, of_atlas).0),
{
    lemma_changes();
    match (crate::convert::reference_arg(args, 0), crate::convert::id_of(value::at(args, 1))) {
        (Ok(region), Some(source)) => {
            let copied = w.copied_drawable(source, region);
            lemma_copied(w, source, region);
            lemma_set(copied, region, "region_x"@, ValueView::Int(0));
            let placed = copied.with_field(region, "region_x"@, ValueView::Int(0));
            lemma_set(placed, region, "region_y"@, ValueView::Int(0));
            match host::size_in(answers, 0) {
                Some((width, height)) => {
                    lemma_with_size(copied, region, width, height);
                    lemma_with_size(
                        placed.with_field(region, "region_y"@, ValueView::Int(0)),
                        region,
                        width,
                        height,
                    );
                },
                None => {},
            }
        },
        _ => {},
    }
}

proof fn lemma_with_size(w: WorldView, id: ObjectId, width: u32, height: u32)
    ensures
        keeps(w, sprites::with_size(w, id, width, height)),
{
    lemma_changes();
}

proof fn lemma_set_singles(
    w: WorldView,
    id: ObjectId,
    names: Seq<Seq<char>>,
    args: Seq<ValueView>,
)
    ensures
        keeps(w, sprites::set_singles(w, id, names, args).0),
    decreases names.len(),
{
    lemma_changes();
    if names.len() > 0 {
        lemma_set_singles(w, id, names.drop_last(), args);
    }
}

proof fn lemma_sprite(
    w: WorldView,
    method: Seq<char>,
    args: Seq<ValueView>,
    answers: Seq<AnswerView>,
)
    ensures
        sprites::sprite(w, method, args, answers) matches Some(done) ==> keeps(w, done.0),
{
    lemma_changes();
    let receiver = crate::convert::reference_arg(args, 0);
    if method == "<init>"@ {
        lemma_init_sprite(w, args);
    } else if method == "setRegion"@ || method == "setTexture"@ {
        lemma_set_shown(w, args);
    } else if method == "setPosition"@ || method == "setSize"@ || method == "setBounds"@ {
        if receiver is Ok {
            lemma_set_singles(w, receiver->Ok_0, sprites::set_fields(method), args);
        }
    } else if method == "setScale"@ {
        lemma_set_scale(w, args);
    } else if method == "draw"@ {
        if receiver is Ok {
            lemma_draw_sprite(w, receiver->Ok_0, answers);
        }
    } else if method == "render"@ {
        lemma_draw_thing(w, true, args, answers);
    }
}

proof fn lemma_init_sprite(w: WorldView, args: Seq<ValueView>)
    ensures
        keeps(w, sprites::init_sprite(w, args).0),
{
    lemma_changes();
    reveal(sprites::init_sprite);
    match (crate::convert::reference_arg(args, 0), crate::convert::id_of(value::at(args, 1))) {
        (Ok(sprite), Some(source)) => {
            let a = w.copied_field(source, sprite, "asset_path"@);
            let b = a.copied_field(source, sprite, "region_x"@);
            let c = b.copied_field(source, sprite, "region_y"@);
            let d = c.copied_field(source, sprite, "region_width"@);
            let e = d.copied_field(source, sprite, "region_height"@);
            assert(keeps(w, a));
            assert(keeps(w, b));
            assert(keeps(w, c));
            assert(keeps(w, d));
            assert(keeps(w, e));
            lemma_sized(e, source, sprite);
        },
        _ => {},
    }
}

proof fn lemma_set_shown(w: WorldView, args: Seq<ValueView>)
    ensures
        keeps(w, sprites::set_shown(w, args).0),
{
    lemma_changes();
    reveal(sprites::set_shown);
    match (crate::convert::reference_arg(args, 0), crate::convert::id_of(value::at(args, 1))) {
        (Ok(sprite), Some(source)) => {
            lemma_copied(w, source, sprite);
            lemma_sized(w.copied_drawable(source, sprite), source, sprite);
        },
        _ => {},
    }
}

proof fn lemma_set_scale(w: WorldView, args: Seq<ValueView>)
    ensures
        keeps(w, sprites::set_scale(w, args).0),
{
    lemma_changes();
    reveal(sprites::set_scale);
}

proof fn lemma_draw_sprite(w: WorldView, sprite: ObjectId, answers: Seq<AnswerView>)
    ensures
        keeps(w, sprites::draw_sprite(w, sprite, answers)),
{
    lemma_changes();
    reveal(sprites::draw_sprite);
}

proof fn lemma_draw_thing(
    w: WorldView,
    is_sprite: bool,
    args: Seq<ValueView>,
    answers: Seq<AnswerView>,
)
    ensures
        keeps(w, sprites::draw_thing(w, is_sprite, args, answers)),
{
    lemma_changes();
    reveal(sprites::draw_thing);
}

proof fn lemma_batch(
    w: WorldView,
    method: Seq<char>,
    args: Seq<ValueView>,
    answers: Seq<AnswerView>,
)
    ensures
        sprites::batch(w, method, args, answers) matches Some(done) ==> keeps(w, done.0),
{
    lemma_changes();
    lemma_draw_thing(w, false, args, answers);
}

/// No method of the game library makes a key occur twice.
pub proof fn the_game_library_keeps_tables_tidy(
    w: WorldView,
    steps: usize,
    class_name: Seq<char>,
    method: Seq<char>,
    args: Seq<ValueView>,
    answers: Seq<AnswerView>,
)
    ensures
        keeps(w, gdx::dispatch::performed(w, steps, class_name, method, args, answers).0),
{
    lemma_changes();
    lemma_by_application(w, class_name, method, args, answers);
    lemma_gl(w, true, method, args);
    lemma_gl(w, false, method, args);
    lemma_atlas(w, method, args, answers);
    lemma_region(w, true, method, args, answers);
    lemma_region(w, false, method, args, answers);
    lemma_sprite(w, method, args, answers);
    lemma_batch(w, method, args, answers);
    lemma_draw_thing(w, false, args, answers);
}

/// No instruction makes a key occur twice.
pub proof fn an_instruction_keeps_tables_tidy(
    dex: &DexFile,
    words: Seq<u16>,
    w: WorldView,
    a: ActivationView,
    opcode: u8,
    instruction: u16,
)
    ensures
        keeps(w, execute::plain_step(dex, words, w, a, opcode, instruction).0),
{
    lemma_changes();
}

// The machine.

/// Whether every table of a machine has each key once.
pub open spec fn tidy_machine(vm: VmView) -> bool {
    tidy(vm.world) && distinct(vm.statics)
}

proof fn lemma_begun(vm: VmView, m: Method, args: Seq<ValueView>)
    requires
        tidy_machine(vm),
    ensures
        tidy_machine(vm.begun(m, args)),
{
    reveal(VmView::begun);
    reveal(VmView::entered);
}

proof fn lemma_called(vm: VmView, index: nat, args: Seq<ValueView>)
    requires
        tidy_machine(vm),
    ensures
        tidy_machine(vm.called(index, args)),
{
    reveal(VmView::called);
    if frames::depth(vm.stack) < vm.config.max_call_depth && index < vm.dex.methods.len() {
        let m = vm.dex.methods[index as int];
        let traced = vm.traced_call(m, args);
        lemma_begun(traced, m, args);
        lemma_begun(traced.marked(m.class_name@), m, args);
    }
}

proof fn lemma_statics(
    dex: &DexFile,
    words: Seq<u16>,
    statics: FieldsView,
    a: ActivationView,
    opcode: u8,
    instruction: u16,
)
    requires
        distinct(statics),
    ensures
        distinct(calls::store_static_step(dex, words, statics, a, opcode, instruction).0),
{
    assert forall|k: Seq<char>, v: ValueView| distinct(#[trigger] table::store(statics, k, v)) by {
        table::store_then_lookup(statics, k, v, k);
    }
}

proof fn lemma_executed(vm: VmView, f: CodeView, opcode: u8, instruction: u16)
    requires
        tidy_machine(vm),
    ensures
        tidy_machine(vm.executed(f, opcode, instruction)),
{
    reveal(VmView::executed);
    reveal(VmView::fetched);
    reveal(VmView::loaded);
    reveal(VmView::invoked);
    an_instruction_keeps_tables_tidy(
        &vm.dex,
        f.words,
        vm.world,
        f.activation,
        opcode,
        instruction,
    );
    lemma_statics(&vm.dex, f.words, vm.statics, f.activation, opcode, instruction);
}

proof fn lemma_code_step(vm: VmView, f: CodeView)
    requires
        tidy_machine(vm),
    ensures
        tidy_machine(vm.code_step(f)),
{
    reveal(VmView::code_step);
    reveal(VmView::loaded);
    let pc = f.activation.pc;
    if pc < f.words.len() && f.phase != Phase::Loading && !vm.exhausted() {
        let instruction = f.words[pc as int];
        let opcode = (instruction % 0x100) as u8;
        lemma_executed(vm.counted().traced_instruction(f, opcode), f, opcode, instruction);
    }
}

proof fn lemma_host_step(vm: VmView, h: HostView)
    requires
        tidy_machine(vm),
    ensures
        tidy_machine(vm.host_step(h)),
{
    reveal(VmView::host_step);
    the_framework_keeps_tables_tidy(vm.world, h.class_name, h.method, h.args, h.answers);
    the_game_library_keeps_tables_tidy(
        vm.world,
        vm.executed_steps,
        h.class_name,
        h.method,
        h.args,
        h.answers,
    );
}

proof fn lemma_received(vm: VmView, frame: FrameView, r: Outcome)
    requires
        tidy_machine(vm),
    ensures
        tidy_machine(vm.received(frame, r)),
{
    reveal(VmView::received);
    match frame {
        FrameView::Prepared { method, args } => lemma_begun(vm, method, args),
        _ => {},
    }
}

/// No step makes a key occur twice.
pub proof fn a_step_keeps_tables_tidy(vm: VmView)
    requires
        tidy_machine(vm),
    ensures
        tidy_machine(vm.next()),
{
    if vm.stack.len() > 0 {
        let below = vm.popped();
        match vm.status {
            StatusView::Running => match vm.stack.last() {
                FrameView::Call { index, args } => lemma_called(below, index, args),
                FrameView::Prepared { method, args } => lemma_begun(below, method, args),
                FrameView::Code(f) => lemma_code_step(below, f),
                FrameView::Host(h) => lemma_host_step(below, h),
                _ => {},
            },
            StatusView::Returning(r) => lemma_received(below, vm.stack.last(), r),
            _ => {},
        }
    }
}

/// However long a machine runs, no key occurs twice.
pub proof fn a_run_keeps_tables_tidy(vm: VmView)
    requires
        tidy_machine(vm),
    ensures
        tidy_machine(vm.ran()),
    decreases run::budget(vm), run::weight(vm),
{
    if vm.active() {
        run::a_step_makes_progress(vm);
        a_step_keeps_tables_tidy(vm);
        a_run_keeps_tables_tidy(vm.next());
    }
}

/// Nor does what callers do to an object.
pub proof fn objects_are_kept_tidy(
    w: WorldView,
    id: ObjectId,
    name: Seq<char>,
    v: ValueView,
    class_name: Seq<char>,
)
    requires
        tidy(w),
    ensures
        tidy(w.with_field(id, name, v)),
        tidy(w.with_object(world::instance_of(class_name))),
{
    lemma_changes();
}

} // verus!
