//! What the framework gives back of what it was given.

use vstd::prelude::*;
use vstd::utf8::{encode_utf8, encode_utf8_decode_utf8, encode_utf8_valid_utf8};

use crate::color;
use crate::error::ErrorView;
use crate::float;
use crate::framework::activity;
use crate::framework::lists;
use crate::framework::objects;
use crate::framework::strings;
use crate::framework::system::gives;
use crate::gdx::application;
use crate::gdx::sprites;
use crate::host;
use crate::host::{AnswerView, QueryView};
use crate::laws::memory;
use crate::laws::numbers;
use crate::machine::VmView;
use crate::table;
use crate::text;
use crate::value;
use crate::value::{ObjectId, ObjectView, ValueView};
use crate::world;
use crate::world::{Effected, WorldView};

verus! {

// Listeners.

/// A view that has been given a click listener runs that listener's `onClick` when it is
/// clicked, and when a finger is lifted from it.
pub proof fn a_click_runs_the_listener(
    vm: VmView,
    view: ObjectId,
    listener: ObjectId,
    x: u32,
    y: u32,
)
    ensures
        ({
            let set = VmView {
                world: objects::set_listener(
                    vm.world,
                    "setOnClickListener"@,
                    seq![ValueView::Object(view), ValueView::Object(listener)],
                ).0,
                ..vm
            };
            let args = seq![ValueView::Object(view)];
            &&& set.clicked(view) == set.requested_on(listener, "onClick"@, args)
            &&& set.touched(view, 1, x, y) == set.requested_on(listener, "onClick"@, args)
        }),
{
    reveal_strlit("setOnClickListener");
    reveal_strlit("setOnTouchListener");
    assert("setOnClickListener"@[5] == 'C');
    assert("setOnTouchListener"@[5] == 'T');
    table::store_then_lookup(vm.world.click_listeners, view, listener, view);
}

/// A view without listeners cannot be clicked or touched.
pub proof fn a_view_without_listeners_refuses(vm: VmView, view: ObjectId, action: i32, x: u32, y: u32)
    requires
        table::lookup(vm.world.click_listeners, view) is None,
        table::lookup(vm.world.touch_listeners, view) is None,
    ensures
        vm.clicked(view).0 == vm,
        vm.clicked(view).1 matches Some(r) && r is Err,
        vm.touched(view, action, x, y).0 == vm,
        vm.touched(view, action, x, y).1 matches Some(r) && r is Err,
{
}

// Lists.

/// A value that is added to a list is its last; the others stay where they are, and the list
/// is longer by one.
pub proof fn an_added_value_is_the_last(w: WorldView, list: ObjectId, v: ValueView, index: int)
    requires
        lists::items(w, list) is Some,
    ensures
        ({
            let before = lists::items(w, list)->0;
            let args = seq![ValueView::Object(list), v];
            let after = lists::items(lists::list(w, "add"@, args).0, list);
            &&& after is Some
            &&& after->0.len() == before.len() + 1
            &&& value::at(after->0, before.len() as int) == Some(v)
            &&& 0 <= index < before.len() ==> value::at(after->0, index) == value::at(
                before,
                index,
            )
        }),
{
    let args = seq![ValueView::Object(list), v];
    assert(value::at(args, 0) == Some(ValueView::Object(list)));
    assert(value::at(args, 1) == Some(v));
    reveal_strlit("add");
    reveal_strlit("size");
    reveal_strlit("isEmpty");
    assert("add"@.len() == 3 && "size"@.len() == 4 && "isEmpty"@.len() == 7);
}

/// A cleared list is empty.
pub proof fn a_cleared_list_is_empty(w: WorldView, list: ObjectId)
    requires
        lists::items(w, list) is Some,
    ensures
        lists::items(
            lists::list_call(w, list, "clear"@, seq![ValueView::Object(list)]).0,
            list,
        ) == Some(Seq::<ValueView>::empty()),
{
    reveal_strlit("clear");
    reveal_strlit("add");
    reveal_strlit("size");
    reveal_strlit("isEmpty");
    reveal_strlit("addElement");
    reveal_strlit("get");
    reveal_strlit("elementAt");
    assert("clear"@.len() == 5 && "add"@.len() == 3 && "size"@.len() == 4 && "isEmpty"@.len() == 7);
    assert("addElement"@.len() == 10 && "get"@.len() == 3 && "elementAt"@.len() == 9);
}

// Text.

/// What is appended to a builder stands behind what it held.
pub proof fn appending_is_concatenation(
    w: WorldView,
    builder: ObjectId,
    args: Seq<ValueView>,
    answers: Seq<AnswerView>,
    s: Seq<char>,
    more: Seq<char>,
)
    requires
        w.object(builder) == Some(ObjectView::StringBuilder(s)),
        value::at(args, 1) == Some(ValueView::String(more)),
    ensures
        strings::builder(w, builder, "append"@, args, answers).0.object(builder) == Some(
            ObjectView::StringBuilder(s + more),
        ),
{
}

/// The string of a builder holds what the builder holds.
pub proof fn a_builder_gives_its_text(
    w: WorldView,
    builder: ObjectId,
    args: Seq<ValueView>,
    answers: Seq<AnswerView>,
    s: Seq<char>,
)
    requires
        w.object(builder) == Some(ObjectView::StringBuilder(s)),
        w.heap.len() <= u32::MAX,
    ensures
        ({
            let (after, r) = strings::builder(w, builder, "toString"@, args, answers);
            r == Ok::<_, ErrorView>(ValueView::Object(w.fresh())) && after.object(
                w.fresh(),
            ) == Some(ObjectView::String(s))
        }),
{
    reveal_strlit("append");
    reveal_strlit("toString");
    assert("append"@.len() == 6 && "toString"@.len() == 8);
}

/// Every integer is read again from its decimal digits.
pub proof fn an_integer_is_read_as_it_was_written(n: int)
    ensures
        text::integer(text::decimal(n)) == Some(n),
{
    if n < 0 {
        lemma_digits((-n) as nat);
        assert(text::decimal(n).skip(1) =~= text::digits((-n) as nat, 10));
        assert(text::decimal(n)[0] == '-');
    } else {
        lemma_digits(n as nat);
    }
}

proof fn lemma_digits(n: nat)
    ensures
        text::number(text::digits(n, 10)) == Some(n),
        text::digits(n, 10).len() > 0,
        text::digits(n, 10)[0] != '-',
        text::digits(n, 10)[0] != '+',
    decreases n,
{
    if n < 10 {
        let s = text::digits(n, 10);
        assert(s.drop_last() =~= Seq::<char>::empty());
        assert(text::number(s.drop_last()) == Some(0nat));
    } else {
        lemma_digits(n / 10);
        let s = text::digits(n, 10);
        assert(s.drop_last() =~= text::digits(n / 10, 10));
        assert(s[0] == text::digits(n / 10, 10)[0]);
    }
}

// Boxes.

/// A number is the one that was put into the box.
pub proof fn a_box_holds_its_number(
    w: WorldView,
    answers: Seq<AnswerView>,
    n: i32,
    m: i64,
    single: u32,
)
    requires
        w.heap.len() <= u32::MAX,
    ensures
        ({
            let (after, r) = strings::boxes(w, "valueOf"@, seq![ValueView::Int(n)], answers);
            r is Ok && strings::boxed_int(after, seq![r->Ok_0]) == Ok::<_, ErrorView>(n)
        }),
        ({
            let (after, r) = strings::boxes(w, "valueOf"@, seq![ValueView::Long(m)], answers);
            r is Ok && strings::boxed_long(after, seq![r->Ok_0]) == Ok::<_, ErrorView>(m)
        }),
        ({
            let (after, r) = strings::boxes(w, "valueOf"@, seq![ValueView::Float(single)], answers);
            r is Ok && strings::boxed_single(after, seq![r->Ok_0]) == Ok::<_, ErrorView>(single)
        }),
{
    assert(value::at(seq![ValueView::Int(n)], 0) == Some(ValueView::Int(n)));
    assert(value::at(seq![ValueView::Long(m)], 0) == Some(ValueView::Long(m)));
    assert(value::at(seq![ValueView::Float(single)], 0) == Some(ValueView::Float(single)));
    let object = ValueView::Object(w.fresh());
    assert(value::at(seq![object], 0) == Some(object));
}

// Preferences and bundles.

/// The preferences that an editor edits.
pub open spec fn edited(w: WorldView, editor: ObjectId) -> ObjectId {
    match w.field_object(editor, "prefs"@) {
        Some(prefs) => prefs,
        None => editor,
    }
}

/// The world once an editor has put a value under a key.
pub open spec fn after_put(
    w: WorldView,
    editor: ObjectId,
    method: Seq<char>,
    key: ValueView,
    v: ValueView,
    answers: Seq<AnswerView>,
) -> WorldView {
    activity::editor(w, method, seq![ValueView::Object(editor), key, v], answers).0
}

/// What is read under a key.
pub open spec fn got(
    w: WorldView,
    prefs: ObjectId,
    method: Seq<char>,
    key: ValueView,
    otherwise: ValueView,
    answers: Seq<AnswerView>,
) -> Effected {
    activity::preferences(w, method, seq![ValueView::Object(prefs), key, otherwise], answers)
}

proof fn lemma_put(
    w: WorldView,
    editor: ObjectId,
    method: Seq<char>,
    key: ValueView,
    v: ValueView,
    answers: Seq<AnswerView>,
    otherwise: ValueView,
)
    requires
        activity::puts(method),
        activity::preferences_name(w, edited(w, editor)) == text::decimal(
            edited(w, editor) as int,
        ),
    ensures
        ({
            let prefs = edited(w, editor);
            let after = after_put(w, editor, method, key, v, answers);
            activity::preference(after, prefs, seq![ValueView::Object(prefs), key, otherwise])
                == Some(activity::preference_text(Some(v), host::text_in(answers, 0)))
        }),
{
    let prefs = edited(w, editor);
    let put = seq![ValueView::Object(editor), key, v];
    let get = seq![ValueView::Object(prefs), key, otherwise];
    let after = after_put(w, editor, method, key, v, answers);
    assert(value::at(put, 0) == Some(ValueView::Object(editor)));
    assert(value::at(put, 1) == Some(key));
    assert(value::at(put, 2) == Some(v));
    assert(value::at(get, 1) == Some(key));
    assert(w.text_at(put, 1) == after.text_at(get, 1));
    table::store_then_lookup(
        w.framework.preferences,
        (text::decimal(prefs as int), w.text_at(put, 1)),
        activity::preference_text(Some(v), host::text_in(answers, 0)),
        (text::decimal(prefs as int), w.text_at(put, 1)),
    );
}

proof fn lemma_getters()
    ensures
        "getInt"@ != "getFloat"@,
        "getInt"@ != "getString"@,
        "getInt"@ != "getBoolean"@,
        "getLong"@ != "getInt"@,
        "getLong"@ != "getFloat"@,
        "getLong"@ != "getString"@,
        "getLong"@ != "getBoolean"@,
        "getBoolean"@ != "getFloat"@,
        "getBoolean"@ != "getString"@,
        "getString"@ != "getFloat"@,
{
    reveal_strlit("getInt");
    reveal_strlit("getLong");
    reveal_strlit("getFloat");
    reveal_strlit("getString");
    reveal_strlit("getBoolean");
    assert("getInt"@.len() == 6 && "getLong"@.len() == 7 && "getFloat"@.len() == 8
        && "getString"@.len() == 9 && "getBoolean"@.len() == 10);
}

/// What an editor has put is read again, under the same key: integers, longs, truth values and
/// texts. Reading changes nothing. Preferences are read under their name and written under
/// their number, so this is of those where the two agree.
pub proof fn a_preference_is_read_as_it_was_put(
    w: WorldView,
    editor: ObjectId,
    key: ValueView,
    answers: Seq<AnswerView>,
    n: i32,
    m: i64,
    b: bool,
    s: Seq<char>,
    otherwise: i32,
    other: ValueView,
)
    requires
        activity::preferences_name(w, edited(w, editor)) == text::decimal(
            edited(w, editor) as int,
        ),
    ensures
        ({
            let prefs = edited(w, editor);
            let default = ValueView::Int(otherwise);
            let ints = after_put(w, editor, "putInt"@, key, ValueView::Int(n), answers);
            let longs = after_put(w, editor, "putLong"@, key, ValueView::Long(m), answers);
            let truths = after_put(w, editor, "putBoolean"@, key, activity::truth(b), answers);
            let texts = after_put(w, editor, "putString"@, key, ValueView::String(s), answers);
            &&& got(ints, prefs, "getInt"@, key, default, answers) == gives(ints, ValueView::Int(n))
            &&& got(longs, prefs, "getLong"@, key, default, answers) == gives(
                longs,
                ValueView::Long(m),
            )
            &&& got(truths, prefs, "getBoolean"@, key, default, answers) == gives(
                truths,
                activity::truth(b),
            )
            &&& got(texts, prefs, "getString"@, key, other, answers) == gives(
                texts,
                ValueView::String(s),
            )
        }),
{
    let prefs = edited(w, editor);
    let default = ValueView::Int(otherwise);
    let get = seq![ValueView::Object(prefs), key, default];
    let get_text = seq![ValueView::Object(prefs), key, other];
    assert(value::at(get, 0) == Some(ValueView::Object(prefs)));
    assert(value::at(get, 2) == Some(default));
    assert(value::at(get_text, 0) == Some(ValueView::Object(prefs)));
    lemma_getters();
    lemma_put(w, editor, "putInt"@, key, ValueView::Int(n), answers, default);
    lemma_put(w, editor, "putLong"@, key, ValueView::Long(m), answers, default);
    lemma_put(w, editor, "putBoolean"@, key, activity::truth(b), answers, default);
    lemma_put(w, editor, "putString"@, key, ValueView::String(s), answers, other);
    an_integer_is_read_as_it_was_written(n as int);
    an_integer_is_read_as_it_was_written(m as int);
    reveal_strlit("1");
    reveal_strlit("0");
    assert(text::decimal(1) =~= "1"@);
    assert(text::decimal(0)[0] == '0');
}

/// The text that the surroundings give for a single that an editor puts is the one that they are
/// asked to read when the single is read again, and what they read is given.
pub proof fn a_single_is_read_from_the_text_it_was_put_as(
    w: WorldView,
    editor: ObjectId,
    key: ValueView,
    single: u32,
    digits: Seq<char>,
    read: u32,
    otherwise: u32,
)
    requires
        activity::preferences_name(w, edited(w, editor)) == text::decimal(
            edited(w, editor) as int,
        ),
    ensures
        ({
            let prefs = edited(w, editor);
            let get = seq![ValueView::Object(prefs), key, ValueView::Float(otherwise)];
            let after = after_put(
                w,
                editor,
                "putFloat"@,
                key,
                ValueView::Float(single),
                seq![AnswerView::Text(digits)],
            );
            &&& activity::preference_question(after, "getFloat"@, get, Seq::empty()) == Some(
                QueryView::ParseSingle(digits),
            )
            &&& got(
                after,
                prefs,
                "getFloat"@,
                key,
                ValueView::Float(otherwise),
                seq![AnswerView::Parsed(Some(read))],
            ) == gives(after, ValueView::Float(read))
        }),
{
    let prefs = edited(w, editor);
    let get = seq![ValueView::Object(prefs), key, ValueView::Float(otherwise)];
    assert(value::at(get, 0) == Some(ValueView::Object(prefs)));
    assert(value::at(get, 2) == Some(ValueView::Float(otherwise)));
    lemma_put(
        w,
        editor,
        "putFloat"@,
        key,
        ValueView::Float(single),
        seq![AnswerView::Text(digits)],
        ValueView::Float(otherwise),
    );
}

/// An editor edits the preferences that it was made for.
pub proof fn an_editor_edits_its_preferences(w: WorldView, prefs: ObjectId, answers: Seq<AnswerView>)
    requires
        w.heap.len() <= u32::MAX,
    ensures
        ({
            let (after, r) = activity::preferences(
                w,
                "edit"@,
                seq![ValueView::Object(prefs)],
                answers,
            );
            r == Ok::<_, ErrorView>(ValueView::Object(w.fresh())) && edited(after, w.fresh())
                == prefs
        }),
{
    let args = seq![ValueView::Object(prefs)];
    assert(value::at(args, 0) == Some(ValueView::Object(prefs)));
    reveal_strlit("edit");
    reveal_strlit("getInt");
    reveal_strlit("getLong");
    reveal_strlit("getFloat");
    reveal_strlit("getString");
    reveal_strlit("getBoolean");
    assert("edit"@.len() == 4 && "getInt"@.len() == 6 && "getLong"@.len() == 7 && "getFloat"@.len()
        == 8 && "getString"@.len() == 9 && "getBoolean"@.len() == 10);
    let class_name = "Landroid/content/SharedPreferences$Editor;"@;
    let made = w.with_object(world::instance_of(class_name));
    let v = ValueView::Object(prefs);
    assert(made.object(w.fresh()) == Some(world::instance_of(class_name)));
    memory::a_field_holds_what_is_set(made, w.fresh(), "prefs"@, v, "prefs"@, w.fresh());
}

/// An integer that is put into a bundle, by whichever method, is read again under the same key,
/// and the bundle then has the key.
pub proof fn a_bundle_holds_what_is_put(
    w: WorldView,
    bundle: ObjectId,
    method: Seq<char>,
    key: Seq<char>,
    n: i32,
)
    requires
        w.class_of(bundle) is Some,
        activity::puts(method),
    ensures
        ({
            let put = seq![ValueView::Object(bundle), ValueView::String(key), ValueView::Int(n)];
            let get = seq![ValueView::Object(bundle), ValueView::String(key)];
            let after = activity::bundle(w, method, put).0;
            &&& activity::bundle(after, "getInt"@, get) == gives(after, ValueView::Int(n))
            &&& activity::bundle(after, "getBoolean"@, get) == gives(after, ValueView::Int(n))
            &&& activity::bundle(after, "containsKey"@, get) == gives(after, ValueView::Int(1))
        }),
{
    let put = seq![ValueView::Object(bundle), ValueView::String(key), ValueView::Int(n)];
    let get = seq![ValueView::Object(bundle), ValueView::String(key)];
    assert(value::at(put, 0) == Some(ValueView::Object(bundle)));
    assert(value::at(put, 1) == Some(ValueView::String(key)));
    assert(value::at(put, 2) == Some(ValueView::Int(n)));
    assert(value::at(get, 0) == Some(ValueView::Object(bundle)));
    assert(value::at(get, 1) == Some(ValueView::String(key)));
    let name = activity::extra_key(key);
    memory::a_field_holds_what_is_set(w, bundle, name, ValueView::Int(n), name, bundle);
    reveal_strlit("getInt");
    reveal_strlit("getBoolean");
    reveal_strlit("containsKey");
    reveal_strlit("putInt");
    reveal_strlit("putBoolean");
    reveal_strlit("putLong");
    reveal_strlit("putFloat");
    reveal_strlit("putString");
    assert("getInt"@[0] == 'g' && "getBoolean"@[0] == 'g' && "containsKey"@[0] == 'c');
    assert("putInt"@[0] == 'p' && "putBoolean"@[0] == 'p' && "putLong"@[0] == 'p' && "putFloat"@[0]
        == 'p' && "putString"@[0] == 'p');
}

/// A service that is asked for again is the same object.
pub proof fn a_service_is_made_once(w: WorldView, args: Seq<ValueView>)
    ensures
        ({
            let (after, r) = activity::get_service(w, args);
            activity::get_service(after, args) == (after, r)
        }),
{
    let name = w.text_at(args, 1);
    let after = activity::get_service(w, args).0;
    table::store_then_lookup(w.framework.system_services, name, w.fresh(), name);
    assert(after.text_at(args, 1) == name) by {
        match value::at(args, 1) {
            Some(ValueView::Object(id)) => {
                if id < w.heap.len() {
                    assert(after.heap[id as int] == w.heap[id as int]);
                }
            },
            _ => {},
        }
    }
}

/// The objects of the game library are made once.
pub proof fn the_game_objects_are_made_once(w: WorldView)
    ensures
        application::get_input(application::get_input(w).0) == application::get_input(w),
        application::get_audio(application::get_audio(w).0) == application::get_audio(w),
        application::get_files(application::get_files(w).0) == application::get_files(w),
        application::get_graphics(application::get_graphics(w).0) == application::get_graphics(w),
{
}

/// A file that holds the UTF-8 of a text is read as that text.
pub proof fn a_text_is_read_as_it_was_written(w: WorldView, args: Seq<ValueView>, s: Seq<char>)
    requires
        application::handle_path(w, args) is Some,
    ensures
        application::handle(
            w,
            "readString"@,
            args,
            seq![AnswerView::Bytes(Some(encode_utf8(s)))],
        ) == Some(gives(w, ValueView::String(s))),
{
    encode_utf8_valid_utf8(s);
    encode_utf8_decode_utf8(s);
    reveal_strlit("exists");
    reveal_strlit("length");
    reveal_strlit("readBytes");
    reveal_strlit("readString");
    assert("exists"@.len() == 6 && "length"@.len() == 6);
    assert("readBytes"@.len() == 9 && "readString"@.len() == 10);
}

/// Whatever is drawn is a number of pixels wide and high, and never less than one.
pub proof fn what_is_drawn_is_at_least_one_wide_and_high(
    w: WorldView,
    args: Seq<ValueView>,
    size: Option<(u32, u32)>,
)
    ensures
        ({
            let bounds = sprites::bounds_of(w, args, size);
            &&& !float::single_nan(bounds.width)
            &&& !float::single_nan(bounds.height)
            &&& float::single_worth(0x3f80_0000) <= float::single_worth(bounds.width)
            &&& float::single_worth(0x3f80_0000) <= float::single_worth(bounds.height)
            &&& 0x3f80_0000 <= bounds.width <= 0x7f80_0000
            &&& 0x3f80_0000 <= bounds.height <= 0x7f80_0000
        }),
{
    assert forall|chosen: u32| #![trigger float::single_greater(chosen, 0x3f80_0000)] {
        let n = float::single_greater(chosen, 0x3f80_0000);
        &&& !float::single_nan(n)
        &&& float::single_worth(0x3f80_0000) <= float::single_worth(n)
        &&& 0x3f80_0000 <= n <= 0x7f80_0000
    } by {
        numbers::the_greater_of_two_is_below_neither(chosen, 0x3f80_0000);
    }
}

/// A sprite is where it was put, and as large as it was made.
pub proof fn a_sprite_is_where_it_was_put(
    w: WorldView,
    sprite: ObjectId,
    x: u32,
    y: u32,
    width: u32,
    height: u32,
)
    requires
        w.class_of(sprite) is Some,
    ensures
        ({
            let args = seq![
                ValueView::Object(sprite),
                ValueView::Float(x),
                ValueView::Float(y),
                ValueView::Float(width),
                ValueView::Float(height),
            ];
            let names = seq!["x"@, "y"@, "width"@, "height"@];
            let (after, r) = sprites::set_singles(w, sprite, names, args);
            &&& r is Ok
            &&& after.field_single(sprite, "x"@) == Some(x)
            &&& after.field_single(sprite, "y"@) == Some(y)
            &&& after.field_single(sprite, "width"@) == Some(width)
            &&& after.field_single(sprite, "height"@) == Some(height)
        }),
{
    let args = seq![
        ValueView::Object(sprite),
        ValueView::Float(x),
        ValueView::Float(y),
        ValueView::Float(width),
        ValueView::Float(height),
    ];
    let names = seq!["x"@, "y"@, "width"@, "height"@];
    assert(value::at(args, 1) == Some(ValueView::Float(x)));
    assert(value::at(args, 2) == Some(ValueView::Float(y)));
    assert(value::at(args, 3) == Some(ValueView::Float(width)));
    assert(value::at(args, 4) == Some(ValueView::Float(height)));
    let three = names.drop_last();
    let two = three.drop_last();
    let one = two.drop_last();
    assert(one.drop_last() =~= Seq::<Seq<char>>::empty());
    assert(one.last() == "x"@ && two.last() == "y"@ && three.last() == "width"@);
    reveal_strlit("x");
    reveal_strlit("y");
    reveal_strlit("width");
    reveal_strlit("height");
    assert("x"@[0] == 'x' && "y"@[0] == 'y' && "width"@[0] == 'w' && "height"@[0] == 'h');
    let w0 = sprites::set_singles(w, sprite, one.drop_last(), args).0;
    assert(w0 == w);
    let w1 = sprites::set_singles(w, sprite, one, args).0;
    assert(w1 == w.with_field(sprite, "x"@, ValueView::Float(x)));
    let w2 = sprites::set_singles(w, sprite, two, args).0;
    assert(w2 == w1.with_field(sprite, "y"@, ValueView::Float(y)));
    let w3 = sprites::set_singles(w, sprite, three, args).0;
    assert(w3 == w2.with_field(sprite, "width"@, ValueView::Float(width)));
    let w4 = sprites::set_singles(w, sprite, names, args).0;
    assert(w4 == w3.with_field(sprite, "height"@, ValueView::Float(height)));
    memory::a_field_holds_what_is_set(w, sprite, "x"@, ValueView::Float(x), "x"@, sprite);
    memory::a_field_holds_what_is_set(w1, sprite, "y"@, ValueView::Float(y), "x"@, sprite);
    memory::a_field_holds_what_is_set(w2, sprite, "width"@, ValueView::Float(width), "x"@, sprite);
    memory::a_field_holds_what_is_set(w2, sprite, "width"@, ValueView::Float(width), "y"@, sprite);
    let tall = ValueView::Float(height);
    memory::a_field_holds_what_is_set(w3, sprite, "height"@, tall, "x"@, sprite);
    memory::a_field_holds_what_is_set(w3, sprite, "height"@, tall, "y"@, sprite);
    memory::a_field_holds_what_is_set(w3, sprite, "height"@, tall, "width"@, sprite);
}

/// A sprite or a batch that has been given a colour is drawn in it.
pub proof fn a_thing_is_drawn_in_its_colour(w: WorldView, args: Seq<ValueView>, id: ObjectId)
    requires
        value::at(args, 0) == Some(ValueView::Object(id)),
        w.class_of(id) is Some,
    ensures
        sprites::color_named(w, args) matches Ok(c) ==> sprites::tint(
            sprites::set_color(w, args).0,
            Some(id),
        ) == c,
{
    match sprites::color_named(w, args) {
        Err(_) => {},
        Ok(c) => {
            let packed = ValueView::Int(color::packed(c));
            memory::a_field_holds_what_is_set(w, id, "color"@, packed, "color"@, id);
            color::pack_and_unpack(c, color::packed(c));
        },
    }
}

} // verus!
