//! Arguments, players, bitmaps, files and the game's application.

use vstd::arithmetic::power2::*;
use vstd::prelude::*;

use crate::arith;
use crate::convert;
use crate::error::ErrorView;
use crate::float;
use crate::framework::activity;
use crate::framework::graphics;
use crate::framework::objects;
use crate::gdx::application;
use crate::gdx::sprites;
use crate::host;
use crate::host::{AnswerView, QueryView};
use crate::laws::conversions;
use crate::laws::conversions::truncates;
use crate::laws::memory;
use crate::laws::rounding;
use crate::laws::rounding::{closest_single, finite_double, finite_single};
use crate::laws::texts;
use crate::table;
use crate::text;
use crate::value;
use crate::value::{ObjectId, ObjectView, ValueView};
use crate::world;
use crate::world::{MediaPlayerState, WorldView};

verus! {

// Arguments.

/// What an argument counts as: an integer loses what is above its 32 bits and a number its
/// fraction, a single is the nearest one, and nothing counts as zero. Texts and objects are no
/// numbers, and only objects are objects.
pub proof fn what_arguments_count_as(args: Seq<ValueView>, index: int)
    requires
        0 <= index < args.len(),
    ensures
        ({
            let r = convert::integer_arg(args, index);
            match args[index] {
                ValueView::Int(n) => r matches Ok(m) && m == n,
                ValueView::Long(n) => r matches Ok(m) && (m as i64) & 0xffff_ffff == n
                    & 0xffff_ffff,
                ValueView::Float(s) => r matches Ok(m) && if float::single_nan(s) {
                    m == 0
                } else {
                    truncates(
                        m as int,
                        float::single_worth(s),
                        pow2(149) as int,
                        i32::MIN as int,
                        i32::MAX as int,
                    )
                },
                ValueView::Double(d) => r matches Ok(m) && if float::double_nan(d) {
                    m == 0
                } else {
                    truncates(
                        m as int,
                        float::double_worth(d),
                        pow2(1074) as int,
                        i32::MIN as int,
                        i32::MAX as int,
                    )
                },
                ValueView::Void => r matches Ok(m) && m == 0,
                ValueView::Null => r matches Ok(m) && m == 0,
                _ => r is Err,
            }
        }),
        ({
            let r = convert::single_arg(args, index);
            match args[index] {
                ValueView::Float(s) => r matches Ok(m) && m == s,
                ValueView::Int(n) => r matches Ok(m) && closest_single(m, n * pow2(149), 1),
                ValueView::Long(n) => r matches Ok(m) && closest_single(m, n * pow2(149), 1),
                ValueView::Double(d) => r matches Ok(m) && (finite_double(d) ==> closest_single(
                    m,
                    float::double_worth(d),
                    pow2(925) as int,
                )),
                ValueView::Void => r matches Ok(m) && m == 0,
                ValueView::Null => r matches Ok(m) && m == 0,
                _ => r is Err,
            }
        }),
        convert::reference_arg(args, index) is Ok <==> args[index] is Object,
        args[index] matches ValueView::Object(id) ==> convert::reference_arg(args, index) == Ok::<
            ObjectId,
            ErrorView,
        >(id),
{
    match args[index] {
        ValueView::Int(n) => conversions::an_integer_becomes_the_nearest_number(n as int),
        ValueView::Long(n) => {
            conversions::an_integer_becomes_the_nearest_number(n as int);
            assert(((n as i32) as i64) & 0xffff_ffff == n & 0xffff_ffff) by (bit_vector);
        },
        ValueView::Float(s) => conversions::a_number_loses_its_fraction(
            s,
            0,
            i32::MIN as int,
            i32::MAX as int,
        ),
        ValueView::Double(d) => {
            conversions::a_number_loses_its_fraction(0, d, i32::MIN as int, i32::MAX as int);
            conversions::a_double_becomes_the_nearest_single(d);
        },
        _ => {},
    }
}

// Players.

/// These names are different.
proof fn lemma_media_methods()
    ensures
        "prepare"@ != "create"@,
        "prepareAsync"@ != "create"@,
        "prepareAsync"@ != "prepare"@,
        "start"@ != "create"@,
        "start"@ != "prepare"@,
        "start"@ != "prepareAsync"@,
        "pause"@ != "create"@,
        "pause"@ != "prepare"@,
        "pause"@ != "prepareAsync"@,
        "pause"@ != "start"@,
        "stop"@ != "create"@,
        "stop"@ != "prepare"@,
        "stop"@ != "prepareAsync"@,
        "stop"@ != "start"@,
        "stop"@ != "pause"@,
        "reset"@ != "create"@,
        "reset"@ != "prepare"@,
        "reset"@ != "prepareAsync"@,
        "reset"@ != "start"@,
        "reset"@ != "pause"@,
        "reset"@ != "stop"@,
        "release"@ != "create"@,
        "release"@ != "prepare"@,
        "release"@ != "prepareAsync"@,
        "release"@ != "start"@,
        "release"@ != "pause"@,
        "release"@ != "stop"@,
        "release"@ != "reset"@,
        "isPlaying"@ != "create"@,
        "isPlaying"@ != "prepare"@,
        "isPlaying"@ != "prepareAsync"@,
        "isPlaying"@ != "start"@,
        "isPlaying"@ != "pause"@,
        "isPlaying"@ != "stop"@,
        "isPlaying"@ != "reset"@,
        "isPlaying"@ != "release"@,
        "isLooping"@ != "create"@,
        "isLooping"@ != "prepare"@,
        "isLooping"@ != "prepareAsync"@,
        "isLooping"@ != "start"@,
        "isLooping"@ != "pause"@,
        "isLooping"@ != "stop"@,
        "isLooping"@ != "reset"@,
        "isLooping"@ != "release"@,
        "isLooping"@ != "isPlaying"@,
        "setLooping"@ != "create"@,
        "setLooping"@ != "prepare"@,
        "setLooping"@ != "prepareAsync"@,
        "setLooping"@ != "start"@,
        "setLooping"@ != "pause"@,
        "setLooping"@ != "stop"@,
        "setLooping"@ != "reset"@,
        "setLooping"@ != "release"@,
        "setLooping"@ != "isPlaying"@,
        "setLooping"@ != "isLooping"@,
        "seekTo"@ != "create"@,
        "seekTo"@ != "prepare"@,
        "seekTo"@ != "prepareAsync"@,
        "seekTo"@ != "start"@,
        "seekTo"@ != "pause"@,
        "seekTo"@ != "stop"@,
        "seekTo"@ != "reset"@,
        "seekTo"@ != "release"@,
        "seekTo"@ != "isPlaying"@,
        "seekTo"@ != "isLooping"@,
        "seekTo"@ != "setLooping"@,
        "getCurrentPosition"@ != "create"@,
        "getCurrentPosition"@ != "prepare"@,
        "getCurrentPosition"@ != "prepareAsync"@,
        "getCurrentPosition"@ != "start"@,
        "getCurrentPosition"@ != "pause"@,
        "getCurrentPosition"@ != "stop"@,
        "getCurrentPosition"@ != "reset"@,
        "getCurrentPosition"@ != "release"@,
        "getCurrentPosition"@ != "isPlaying"@,
        "getCurrentPosition"@ != "isLooping"@,
        "getCurrentPosition"@ != "setLooping"@,
        "getCurrentPosition"@ != "seekTo"@,
{
    reveal_strlit("create");
    reveal_strlit("prepare");
    reveal_strlit("prepareAsync");
    reveal_strlit("start");
    reveal_strlit("pause");
    reveal_strlit("stop");
    reveal_strlit("reset");
    reveal_strlit("release");
    reveal_strlit("isPlaying");
    reveal_strlit("isLooping");
    reveal_strlit("setLooping");
    reveal_strlit("seekTo");
    reveal_strlit("getCurrentPosition");
    assert("create"@.len() == 6);
    assert("prepare"@.len() == 7);
    assert("prepareAsync"@.len() == 12);
    assert("start"@.len() == 5);
    assert("pause"@.len() == 5);
    assert("stop"@.len() == 4);
    assert("reset"@.len() == 5);
    assert("release"@.len() == 7);
    assert("isPlaying"@.len() == 9);
    assert("isLooping"@.len() == 9);
    assert("setLooping"@.len() == 10);
    assert("seekTo"@.len() == 6);
    assert("getCurrentPosition"@.len() == 18);
    assert("pause"@[0] == 'p' && "start"@[0] == 's');
    assert("reset"@[0] == 'r' && "start"@[0] == 's');
    assert("reset"@[0] == 'r' && "pause"@[0] == 'p');
    assert("release"@[0] == 'r' && "prepare"@[0] == 'p');
    assert("isLooping"@[2] == 'L' && "isPlaying"@[2] == 'P');
    assert("seekTo"@[0] == 's' && "create"@[0] == 'c');
}

/// A player says of itself what was set last: that it loops, and where it is. Stopping it takes it
/// back to its start and silences it; going on from elsewhere changes neither.
pub proof fn a_player_is_as_it_was_set(w: WorldView, player: ObjectId, n: i32)
    ensures
        ({
            let me = seq![ValueView::Object(player)];
            let with = seq![ValueView::Object(player), ValueView::Int(n)];
            let looped = objects::media(w, "setLooping"@, with).0;
            let moved = objects::media(w, "seekTo"@, with).0;
            let stopped = objects::media(moved, "stop"@, me).0;
            let read = |v: WorldView, method: Seq<char>| objects::media(v, method, me).1;
            let place = if n < 0 {
                0
            } else {
                n
            };
            &&& read(looped, "isLooping"@) == Ok::<ValueView, ErrorView>(
                ValueView::Int(
                    if n != 0 {
                        1
                    } else {
                        0
                    },
                ),
            )
            &&& read(looped, "getCurrentPosition"@) == read(w, "getCurrentPosition"@)
            &&& read(looped, "isPlaying"@) == read(w, "isPlaying"@)
            &&& read(moved, "getCurrentPosition"@) == Ok::<ValueView, ErrorView>(
                ValueView::Int(place),
            )
            &&& read(moved, "isPlaying"@) == read(w, "isPlaying"@)
            &&& read(moved, "isLooping"@) == read(w, "isLooping"@)
            &&& read(stopped, "getCurrentPosition"@) == Ok::<ValueView, ErrorView>(
                ValueView::Int(0),
            )
            &&& read(stopped, "isPlaying"@) == Ok::<ValueView, ErrorView>(ValueView::Int(0))
            &&& read(stopped, "isLooping"@) == read(w, "isLooping"@)
        }),
{
    lemma_media_methods();
    let me = seq![ValueView::Object(player)];
    let with = seq![ValueView::Object(player), ValueView::Int(n)];
    assert(value::at(me, 0) == Some(ValueView::Object(player)));
    assert(value::at(with, 0) == Some(ValueView::Object(player)));
    assert(value::at(with, 1) == Some(ValueView::Int(n)));
    let state = objects::player_state(w, player);
    let known = objects::known_player(w, player);
    let loops = MediaPlayerState { looping: n != 0, ..state };
    lemma_player_set(known, player, loops);
    let moved = objects::media(w, "seekTo"@, with).0;
    let place = MediaPlayerState { position_ms: float::larger(n as int, 0) as i32, ..state };
    lemma_player_set(known, player, place);
    assert(moved == objects::with_player(known, player, place));
    let silent = MediaPlayerState { playing: false, position_ms: 0, ..place };
    lemma_player_set(moved, player, silent);
}

/// A player that nothing was done with is silent, at its start, and does not loop. So is one that
/// is made.
pub proof fn a_new_player_is_silent_at_its_start(w: WorldView, player: ObjectId)
    requires
        table::lookup(w.framework.media_players, player) is None,
        w.heap.len() < u32::MAX,
    ensures
        ({
            let rests = |v: WorldView, id: ObjectId|
                {
                    let me = seq![ValueView::Object(id)];
                    let none = Ok::<ValueView, ErrorView>(ValueView::Int(0));
                    &&& objects::media(v, "isPlaying"@, me).1 == none
                    &&& objects::media(v, "isLooping"@, me).1 == none
                    &&& objects::media(v, "getCurrentPosition"@, me).1 == none
                };
            let made = objects::media(w, "create"@, seq![ValueView::Object(player)]);
            &&& rests(w, player)
            &&& rests(made.0, w.heap.len() as ObjectId)
            &&& made.1 == Ok::<ValueView, ErrorView>(ValueView::Object(w.heap.len() as ObjectId))
        }),
{
    lemma_media_methods();
    let me = seq![ValueView::Object(player)];
    assert(value::at(me, 0) == Some(ValueView::Object(player)));
    let new = seq![ValueView::Object(w.fresh())];
    assert(value::at(new, 0) == Some(ValueView::Object(w.fresh())));
    let known = objects::known_player(w, player).with_object(
        world::instance_of("Landroid/media/MediaPlayer;"@),
    );
    let state = MediaPlayerState { prepared: true, ..world::idle_player() };
    lemma_player_set(known, w.fresh(), state);
}

proof fn lemma_player_set(w: WorldView, player: u32, state: MediaPlayerState)
    ensures
        objects::player_state(objects::with_player(w, player, state), player) == state,
        objects::known_player(objects::with_player(w, player, state), player)
            == objects::with_player(w, player, state),
{
    table::store_then_lookup(w.framework.media_players, player, state, player);
}

// Bitmaps and paint.

/// These names are different.
proof fn lemma_bitmap_methods()
    ensures
        "getWidth"@ != "createBitmap"@,
        "getHeight"@ != "createBitmap"@,
        "getHeight"@ != "getWidth"@,
{
    reveal_strlit("createBitmap");
    reveal_strlit("getWidth");
    reveal_strlit("getHeight");
    assert("createBitmap"@.len() == 12);
    assert("getWidth"@.len() == 8);
    assert("getHeight"@.len() == 9);
}

/// These names are different.
proof fn lemma_bitmap_fields()
    ensures
        "height"@ != "width"@,
        "path"@ != "width"@,
        "path"@ != "height"@,
        "color"@ != "width"@,
        "color"@ != "height"@,
        "color"@ != "path"@,
        "text_size"@ != "width"@,
        "text_size"@ != "height"@,
        "text_size"@ != "path"@,
        "text_size"@ != "color"@,
{
    reveal_strlit("width");
    reveal_strlit("height");
    reveal_strlit("path");
    reveal_strlit("color");
    reveal_strlit("text_size");
    assert("width"@.len() == 5);
    assert("height"@.len() == 6);
    assert("path"@.len() == 4);
    assert("color"@.len() == 5);
    assert("text_size"@.len() == 9);
    assert("color"@[0] == 'c' && "width"@[0] == 'w');
}

/// A bitmap of a resource is as large as its image and remembers its path. It says its size.
pub proof fn a_bitmap_is_as_large_as_its_image(
    w: WorldView,
    resources: ValueView,
    id: i32,
    path: Seq<char>,
    width: u32,
    height: u32,
)
    requires
        w.heap.len() < u32::MAX,
        id >= 0,
        table::lookup(w.framework.resource_images, id as u32) == Some(path),
        0 < width <= i32::MAX,
        0 < height <= i32::MAX,
    ensures
        ({
            let args = seq![resources, ValueView::Int(id)];
            let bitmap = w.heap.len() as ObjectId;
            let me = seq![ValueView::Object(bitmap)];
            let answers = seq![AnswerView::Size(Some((width, height)))];
            let (after, r) = graphics::factory(w, "decodeResource"@, args, answers);
            &&& graphics::factory_question(w, "decodeResource"@, args, Seq::empty()) == Some(
                QueryView::ImageSize(path),
            )
            &&& r == Ok::<ValueView, ErrorView>(ValueView::Object(bitmap))
            &&& after.field_text(bitmap, "path"@) == Some(path)
            &&& graphics::bitmap(after, "getWidth"@, me) == (
                after,
                Ok::<ValueView, ErrorView>(ValueView::Int(width as i32)),
            )
            &&& graphics::bitmap(after, "getHeight"@, me) == (
                after,
                Ok::<ValueView, ErrorView>(ValueView::Int(height as i32)),
            )
        }),
{
    lemma_bitmap_methods();
    lemma_bitmap_fields();
    let args = seq![resources, ValueView::Int(id)];
    assert(value::at(args, 1) == Some(ValueView::Int(id)));
    let bitmap = w.fresh();
    let me = seq![ValueView::Object(bitmap)];
    assert(value::at(me, 0) == Some(ValueView::Object(bitmap)));
    let answers = seq![AnswerView::Size(Some((width, height)))];
    assert(host::size_in(answers, 0) == Some((width, height)));
    let made = w.with_object(world::instance_of("Landroid/graphics/Bitmap;"@));
    let across = ValueView::Int(width as i32);
    let down = ValueView::Int(height as i32);
    let wide = made.with_field(bitmap, "width"@, across);
    let tall = wide.with_field(bitmap, "height"@, down);
    memory::a_field_holds_what_is_set(made, bitmap, "width"@, across, "width"@, bitmap);
    memory::a_field_holds_what_is_set(wide, bitmap, "height"@, down, "width"@, bitmap);
    let named = ValueView::String(path);
    memory::a_field_holds_what_is_set(tall, bitmap, "path"@, named, "width"@, bitmap);
    memory::a_field_holds_what_is_set(tall, bitmap, "path"@, named, "height"@, bitmap);
    let (after, r) = graphics::factory(w, "decodeResource"@, args, answers);
    assert(after == tall.with_field(bitmap, "path"@, named));
    assert(after.field_int(bitmap, "width"@) == Some(width as i32));
    assert(after.field_int(bitmap, "height"@) == Some(height as i32));
}

/// These names are different.
proof fn lemma_paint_methods()
    ensures
        "setTextSize"@ != "setColor"@,
        "measureText"@ != "setColor"@,
        "measureText"@ != "setTextSize"@,
{
    reveal_strlit("setColor");
    reveal_strlit("setTextSize");
    reveal_strlit("measureText");
    assert("setColor"@.len() == 8);
    assert("setTextSize"@.len() == 11);
    assert("measureText"@.len() == 11);
    assert("measureText"@[0] == 'm' && "setTextSize"@[0] == 's');
}

/// A paint has the colour and the text size that it was given last; a text is half its size wide
/// for each of its characters.
pub proof fn a_paint_is_as_it_was_set(
    w: WorldView,
    paint: ObjectId,
    n: i32,
    size: u32,
    words: Seq<char>,
    across: u32,
)
    requires
        w.class_of(paint) is Some,
        finite_single(size),
        words.len() < 0x100_0000,
        finite_single(across),
        float::single_worth(across) == words.len() * float::single_worth(size),
    ensures
        ({
            let coloured = graphics::paint(
                w,
                "setColor"@,
                seq![ValueView::Object(paint), ValueView::Int(n)],
            ).0;
            let sized = graphics::paint(
                w,
                "setTextSize"@,
                seq![ValueView::Object(paint), ValueView::Float(size)],
            ).0;
            let (after, r) = graphics::paint(
                sized,
                "measureText"@,
                seq![ValueView::Object(paint), ValueView::String(words)],
            );
            &&& coloured.field_int(paint, "color"@) == Some(n)
            &&& sized.field_single(paint, "text_size"@) == Some(size)
            &&& after == sized
            &&& r matches Ok(ValueView::Float(width)) && closest_single(
                width,
                words.len() * float::single_worth(size),
                2,
            )
        }),
{
    lemma_paint_methods();
    lemma_bitmap_fields();
    let colouring = seq![ValueView::Object(paint), ValueView::Int(n)];
    assert(value::at(colouring, 0) == Some(ValueView::Object(paint)));
    assert(value::at(colouring, 1) == Some(ValueView::Int(n)));
    let sizing = seq![ValueView::Object(paint), ValueView::Float(size)];
    assert(value::at(sizing, 0) == Some(ValueView::Object(paint)));
    assert(value::at(sizing, 1) == Some(ValueView::Float(size)));
    let measuring = seq![ValueView::Object(paint), ValueView::String(words)];
    assert(value::at(measuring, 0) == Some(ValueView::Object(paint)));
    assert(value::at(measuring, 1) == Some(ValueView::String(words)));
    memory::a_field_holds_what_is_set(w, paint, "color"@, ValueView::Int(n), "color"@, paint);
    let given = ValueView::Float(size);
    memory::a_field_holds_what_is_set(w, paint, "text_size"@, given, "text_size"@, paint);
    lemma_text_width(words.len(), size, across);
}

proof fn lemma_text_width(count: nat, size: u32, across: u32)
    requires
        finite_single(size),
        count < 0x100_0000,
        finite_single(across),
        float::single_worth(across) == count * float::single_worth(size),
    ensures
        closest_single(
            graphics::text_width(count, size),
            count * float::single_worth(size),
            2,
        ),
{
    let one = pow2(149) as int;
    lemma_pow2_pos(149);
    lemma_pow2_unfold(149);
    conversions::a_short_integer_is_exact_as_a_single(count as int);
    let c = float::int_as_single(count as int);
    rounding::the_product_of_singles_is_closest(c, size);
    let p = arith::single_product(c, size);
    let s = float::single_worth(size);
    assert((count * one) * s == (count * s) * one) by (nonlinear_arith);
    rounding::the_closest_single_is_exact(p, (count * one) * s, one, across);
    let (v, u) = (float::single_worth(p), float::single_worth(across));
    assert(v == u) by (nonlinear_arith)
        requires
            v * one == u * one,
            one > 0,
    ;
    crate::laws::drawing::lemma_same_worth(p, across);
    lemma_half();
    rounding::the_product_of_singles_is_closest(p, 0x3f00_0000);
    let half = pow2(148) as int;
    lemma_pow2_pos(148);
    assert(one == 2 * half);
    let r = arith::single_product(p, 0x3f00_0000);
    crate::laws::drawing::lemma_reduced(r, v, 2, half);
}

proof fn lemma_half()
    ensures
        float::single_worth(0x3f00_0000) == pow2(148),
        finite_single(0x3f00_0000),
{
    lemma2_to64();
    rounding::the_worth_of_a_single(false, 126, 0);
    lemma_pow2_adds(23, 125);
}

// Files of the game.

/// These names are different.
proof fn lemma_handle_methods()
    ensures
        "length"@ != "exists"@,
        "readBytes"@ != "exists"@,
        "readBytes"@ != "length"@,
        "readString"@ != "exists"@,
        "readString"@ != "length"@,
        "readString"@ != "readBytes"@,
        "internal"@ != "exists"@,
        "internal"@ != "length"@,
        "internal"@ != "readBytes"@,
        "internal"@ != "readString"@,
        "external"@ != "exists"@,
        "external"@ != "length"@,
        "external"@ != "readBytes"@,
        "external"@ != "readString"@,
        "external"@ != "internal"@,
        "local"@ != "exists"@,
        "local"@ != "length"@,
        "local"@ != "readBytes"@,
        "local"@ != "readString"@,
        "local"@ != "internal"@,
        "local"@ != "external"@,
{
    reveal_strlit("exists");
    reveal_strlit("length");
    reveal_strlit("readBytes");
    reveal_strlit("readString");
    reveal_strlit("internal");
    reveal_strlit("external");
    reveal_strlit("local");
    assert("exists"@.len() == 6);
    assert("length"@.len() == 6);
    assert("readBytes"@.len() == 9);
    assert("readString"@.len() == 10);
    assert("internal"@.len() == 8);
    assert("external"@.len() == 8);
    assert("local"@.len() == 5);
    assert("length"@[0] == 'l' && "exists"@[0] == 'e');
    assert("external"@[0] == 'e' && "internal"@[0] == 'i');
}

/// A file handle has the path that it was asked for with. Reading asks for the bytes at that path
/// and gives them: as many as there are, each as a number from 0 to 255, in their order.
pub proof fn a_file_is_read_from_its_path(
    w: WorldView,
    files: ValueView,
    path: Seq<char>,
    bytes: Seq<u8>,
    index: int,
)
    requires
        0 < w.heap.len() < u32::MAX,
        bytes.len() <= i64::MAX,
        0 <= index < bytes.len(),
    ensures
        ({
            let id = w.heap.len() as ObjectId;
            let me = seq![ValueView::Object(id)];
            let given = seq![AnswerView::Bytes(Some(bytes))];
            application::files(w, "internal"@, seq![files, ValueView::String(path)]) matches Some(
                (after, r),
            ) && {
                &&& r == Ok::<ValueView, ErrorView>(ValueView::Object(id))
                &&& application::handle_question(after, "readBytes"@, me, Seq::empty()) == Some(
                    QueryView::Bytes(path),
                )
                &&& application::handle(after, "exists"@, me, given) == Some(
                    (after, Ok::<ValueView, ErrorView>(ValueView::Int(1))),
                )
                &&& application::handle(after, "exists"@, me, seq![AnswerView::Bytes(None)])
                    == Some((after, Ok::<ValueView, ErrorView>(ValueView::Int(0))))
                &&& application::handle(after, "length"@, me, given) == Some(
                    (after, Ok::<ValueView, ErrorView>(ValueView::Long(bytes.len() as i64))),
                )
                &&& application::handle(after, "readBytes"@, me, given) matches Some((read, s))
                    && s is Ok && (read.heap.last() matches ObjectView::Array { values, .. }
                    && values.len() == bytes.len() && values[index] == ValueView::Int(
                    bytes[index] as i32,
                ))
            }
        }),
{
    lemma_handle_methods();
    let id = w.fresh();
    let me = seq![ValueView::Object(id)];
    let given = seq![AnswerView::Bytes(Some(bytes))];
    let none = seq![AnswerView::Bytes(None)];
    assert(value::at(me, 0) == Some(ValueView::Object(id)));
    let args = seq![files, ValueView::String(path)];
    assert(value::at(args, 1) == Some(ValueView::String(path)));
    assert(host::bytes_in(given) == Some(bytes));
    assert(host::bytes_in(none) is None);
    let made = w.with_object(world::instance_of("Lcom/badlogic/gdx/files/FileHandle;"@));
    let named = ValueView::String(path);
    memory::a_field_holds_what_is_set(made, id, "path"@, named, "path"@, id);
}

/// These names are different.
proof fn lemma_graphics_methods()
    ensures
        "getHeight"@ != "getWidth"@,
        "getDeltaTime"@ != "getWidth"@,
        "getDeltaTime"@ != "getHeight"@,
{
    reveal_strlit("getWidth");
    reveal_strlit("getHeight");
    reveal_strlit("getDeltaTime");
    assert("getWidth"@.len() == 8);
    assert("getHeight"@.len() == 9);
    assert("getDeltaTime"@.len() == 12);
}

/// The game is told the size of the surface, and that a frame lasts a sixtieth of a second.
pub proof fn the_game_is_told_its_size_and_its_time(w: WorldView)
    ensures
        application::graphics(w, "getWidth"@) == Some(
            (w, Ok::<ValueView, ErrorView>(ValueView::Int(w.framework.surface_size.0))),
        ),
        application::graphics(w, "getHeight"@) == Some(
            (w, Ok::<ValueView, ErrorView>(ValueView::Int(w.framework.surface_size.1))),
        ),
        application::graphics(w, "getDeltaTime"@) matches Some((after, Ok(ValueView::Float(n))))
            && after == w && closest_single(n, pow2(149) as int, 60),
{
    lemma_graphics_methods();
    let one = pow2(149) as int;
    lemma_pow2_pos(149);
    lemma_pow2_pos(23);
    rounding::the_worth_of_a_single(false, 0, 0);
    lemma_60();
    assert(60 * one > 0);
    rounding::the_quotient_of_singles_is_closest(0x3f80_0000, 0x4270_0000);
    crate::laws::drawing::lemma_reduced(application::frame_time(), one, 60, one);
}

proof fn lemma_60()
    ensures
        float::single_worth(0x4270_0000) == 60 * pow2(149),
        finite_single(0x4270_0000),
{
    lemma2_to64();
    lemma2_to64_rest();
    rounding::the_worth_of_a_single(false, 132, 0x70_0000);
    lemma_pow2_adds(131, 18);
    assert(0xf0_0000 * pow2(131) == 60 * (pow2(131) * 0x4_0000)) by (nonlinear_arith);
}

/// An application that is shown has the listener and the view that it was made with, on a surface
/// of 320 by 480.
pub proof fn an_application_is_shown_on_its_view(
    w: WorldView,
    app: ValueView,
    listener: ObjectId,
    view: u32,
)
    requires
        view != 0,
    ensures
        ({
            let args = seq![app, ValueView::Object(listener)];
            let answers = seq![AnswerView::View(view)];
            application::initialize(w, args, host::view_in(answers)) matches (after, r) && r
                == Ok::<ValueView, ErrorView>(ValueView::Object(view)) && after.framework.gdx_view
                == Some(view) && after.framework.gdx_listener == Some(listener)
                && after.framework.surface_size == (320i32, 480i32) && after.heap == w.heap
        }),
{
    let args = seq![app, ValueView::Object(listener)];
    assert(value::at(args, 1) == Some(ValueView::Object(listener)));
}

// Resources and preferences.

/// A list of strings is one resource, cut at the marks between its items.
pub proof fn a_list_of_strings_is_cut_at_its_marks(w: WorldView, receiver: ValueView, id: i32)
    requires
        id >= 0,
        table::lookup(w.framework.resource_strings, id as u32) is Some,
    ensures
        ({
            let items = activity::resource_items(w, seq![receiver, ValueView::Int(id)]);
            &&& items.len() > 0
            &&& texts::joined(items, "\\u0000"@) == table::lookup(
                w.framework.resource_strings,
                id as u32,
            )->0
            &&& forall|i: int|
                0 <= i < items.len() ==> !text::contains(#[trigger] items[i], "\\u0000"@)
        }),
{
    let args = seq![receiver, ValueView::Int(id)];
    assert(value::at(args, 1) == Some(ValueView::Int(id)));
    reveal_strlit("\\u0000");
    assert("\\u0000"@.len() == 6);
    let s = table::lookup(w.framework.resource_strings, id as u32)->0;
    texts::the_parts_of_a_text_make_it_up(s, "\\u0000"@);
}

/// Preferences that are asked for by name are read under that name.
pub proof fn preferences_are_read_under_their_name(
    w: WorldView,
    context: ValueView,
    name: Seq<char>,
)
    requires
        w.heap.len() < u32::MAX,
    ensures
        ({
            let (after, r) = activity::get_preferences(w, seq![context, ValueView::String(name)]);
            let id = w.heap.len() as ObjectId;
            &&& r == Ok::<ValueView, ErrorView>(ValueView::Object(id))
            &&& activity::preferences_name(after, id) == name
        }),
{
    let args = seq![context, ValueView::String(name)];
    assert(value::at(args, 1) == Some(ValueView::String(name)));
    let id = w.fresh();
    let made = w.with_object(world::instance_of("Landroid/content/SharedPreferences;"@));
    let named = ValueView::String(name);
    memory::a_field_holds_what_is_set(made, id, "name"@, named, "name"@, id);
}

/// An object's class is told as a new class object of that name.
pub proof fn an_object_tells_its_class(w: WorldView, id: ObjectId, class_name: Seq<char>)
    requires
        w.class_of(id) == Some(class_name),
    ensures
        ({
            let (after, r) = objects::get_class(w, seq![ValueView::Object(id)]);
            &&& r == Ok::<ValueView, ErrorView>(ValueView::Object(w.heap.len() as ObjectId))
            &&& after.heap == w.heap.push(ObjectView::Class(class_name))
        }),
{
    let me = seq![ValueView::Object(id)];
    assert(value::at(me, 0) == Some(ValueView::Object(id)));
}

// Textures.

/// These names are different.
proof fn lemma_texture_methods()
    ensures
        "dispose"@ != "<init>"@,
        "setFilter"@ != "<init>"@,
        "setFilter"@ != "dispose"@,
        "setWrap"@ != "<init>"@,
        "setWrap"@ != "dispose"@,
        "setWrap"@ != "setFilter"@,
        "getWidth"@ != "<init>"@,
        "getWidth"@ != "dispose"@,
        "getWidth"@ != "setFilter"@,
        "getWidth"@ != "setWrap"@,
        "getHeight"@ != "<init>"@,
        "getHeight"@ != "dispose"@,
        "getHeight"@ != "setFilter"@,
        "getHeight"@ != "setWrap"@,
        "getHeight"@ != "getWidth"@,
{
    reveal_strlit("<init>");
    reveal_strlit("dispose");
    reveal_strlit("setFilter");
    reveal_strlit("setWrap");
    reveal_strlit("getWidth");
    reveal_strlit("getHeight");
    assert("<init>"@.len() == 6);
    assert("dispose"@.len() == 7);
    assert("setFilter"@.len() == 9);
    assert("setWrap"@.len() == 7);
    assert("getWidth"@.len() == 8);
    assert("getHeight"@.len() == 9);
    assert("setWrap"@[0] == 's' && "dispose"@[0] == 'd');
    assert("getHeight"@[0] == 'g' && "setFilter"@[0] == 's');
}

/// A texture made of a file has its path, asks for the size of that image, and is as large as the
/// answer says. Without an answer it has no size.
pub proof fn a_texture_is_as_large_as_its_image(
    w: WorldView,
    texture: ObjectId,
    path: Seq<char>,
    width: u32,
    height: u32,
)
    requires
        w.class_of(texture) is Some,
        width <= i32::MAX,
        height <= i32::MAX,
    ensures
        ({
            let me = seq![ValueView::Object(texture)];
            let none = Seq::<AnswerView>::empty();
            let given = seq![AnswerView::Size(Some((width, height)))];
            let made = sprites::texture(
                w,
                "<init>"@,
                seq![ValueView::Object(texture), ValueView::String(path)],
                none,
            );
            made matches Some((after, r)) && r is Ok && {
                &&& sprites::texture_question(after, "getWidth"@, me, none) == Some(
                    QueryView::ImageSize(path),
                )
                &&& sprites::texture(after, "getWidth"@, me, given) == Some(
                    (after, Ok::<ValueView, ErrorView>(ValueView::Int(width as i32))),
                )
                &&& sprites::texture(after, "getHeight"@, me, given) == Some(
                    (after, Ok::<ValueView, ErrorView>(ValueView::Int(height as i32))),
                )
                &&& sprites::texture(after, "getHeight"@, me, none) matches Some((_, failed))
                    && failed is Err
            }
        }),
{
    lemma_texture_methods();
    let me = seq![ValueView::Object(texture)];
    let args = seq![ValueView::Object(texture), ValueView::String(path)];
    let given = seq![AnswerView::Size(Some((width, height)))];
    assert(value::at(me, 0) == Some(ValueView::Object(texture)));
    assert(value::at(args, 0) == Some(ValueView::Object(texture)));
    assert(value::at(args, 1) == Some(ValueView::String(path)));
    assert(host::size_in(given, 0) == Some((width, height)));
    let named = ValueView::String(path);
    memory::a_field_holds_what_is_set(w, texture, "path"@, named, "path"@, texture);
}

} // verus!
