//! What the files, players, intents and views of the framework keep.

use vstd::prelude::*;

use crate::framework::activity;
use crate::framework::objects;
use crate::framework::system::gives;
use crate::laws::memory;
use crate::machine::VmView;
use crate::table;
use crate::value;
use crate::value::{ObjectId, ValueView};
use crate::world;
use crate::world::{MediaPlayerState, WorldView};

verus! {

// Views.

/// A view that has been given a touch listener runs the listener's `onTouch` with an event that
/// tells the action and the place, unless the finger is lifted from a view with a click
/// listener.
pub proof fn a_touch_runs_the_listener(
    vm: VmView,
    view: ObjectId,
    listener: ObjectId,
    action: i32,
    x: u32,
    y: u32,
)
    requires
        table::lookup(vm.world.click_listeners, view) is None || action != 1,
        vm.world.heap.len() <= u32::MAX,
    ensures
        ({
            let set = VmView {
                world: objects::set_listener(
                    vm.world,
                    "setOnTouchListener"@,
                    seq![ValueView::Object(view), ValueView::Object(listener)],
                ).0,
                ..vm
            };
            let event = set.world.fresh();
            let with_event = VmView { world: touch_world(set.world, action, x, y), ..set };
            &&& set.touched(view, action, x, y) == with_event.requested_on(
                listener,
                "onTouch"@,
                seq![ValueView::Object(view), ValueView::Object(event)],
            )
            &&& with_event.world.field_int(event, "action"@) == Some(action)
            &&& with_event.world.field_single(event, "x"@) == Some(x)
            &&& with_event.world.field_single(event, "y"@) == Some(y)
        }),
{
    table::store_then_lookup(vm.world.touch_listeners, view, listener, view);
    let args = seq![ValueView::Object(view), ValueView::Object(listener)];
    assert(value::at(args, 0) == Some(ValueView::Object(view)));
    assert(value::at(args, 1) == Some(ValueView::Object(listener)));
    let w = objects::set_listener(vm.world, "setOnTouchListener"@, args).0;
    let event = w.fresh();
    let made = w.with_object(world::instance_of("Landroid/view/MotionEvent;"@));
    assert(made.object(event) == Some(world::instance_of("Landroid/view/MotionEvent;"@)));
    let once = made.with_field(event, "action"@, ValueView::Int(action));
    let twice = once.with_field(event, "x"@, ValueView::Float(x));
    reveal_strlit("action");
    reveal_strlit("x");
    reveal_strlit("y");
    assert("action"@.len() == 6 && "x"@[0] == 'x' && "y"@[0] == 'y');
    assert("x"@.len() == 1 && "y"@.len() == 1);
    let what = ValueView::Int(action);
    let across = ValueView::Float(x);
    let down = ValueView::Float(y);
    memory::a_field_holds_what_is_set(made, event, "action"@, what, "action"@, event);
    memory::a_field_holds_what_is_set(once, event, "x"@, across, "action"@, event);
    memory::a_field_holds_what_is_set(twice, event, "y"@, down, "action"@, event);
    memory::a_field_holds_what_is_set(twice, event, "y"@, down, "x"@, event);
}

/// The world with the event of a touch.
pub open spec fn touch_world(w: WorldView, action: i32, x: u32, y: u32) -> WorldView {
    w.with_object(world::instance_of("Landroid/view/MotionEvent;"@)).with_field(
        w.fresh(),
        "action"@,
        ValueView::Int(action),
    ).with_field(w.fresh(), "x"@, ValueView::Float(x)).with_field(
        w.fresh(),
        "y"@,
        ValueView::Float(y),
    )
}

// Files.

/// A file that is deleted is gone, and deleting it again deletes nothing.
pub proof fn a_deleted_file_is_gone(w: WorldView, args: Seq<ValueView>, id: ObjectId)
    requires
        value::at(args, 0) == Some(ValueView::Object(id)),
        table::distinct(w.framework.files),
    ensures
        ({
            let after = objects::file(w, "delete"@, args).0;
            &&& objects::file(after, "exists"@, args) == gives(after, ValueView::Int(0))
            &&& objects::file(after, "delete"@, args) == gives(after, ValueView::Int(0))
            &&& objects::file(after, "length"@, args) == gives(after, ValueView::Long(0))
        }),
{
    reveal_strlit("exists");
    reveal_strlit("isFile");
    reveal_strlit("length");
    reveal_strlit("delete");
    assert("exists"@[0] == 'e' && "isFile"@[0] == 'i' && "length"@[0] == 'l' && "delete"@[0]
        == 'd');
    let path = match w.field_text(id, "path"@) {
        Some(s) => s,
        None => Seq::empty(),
    };
    lemma_removed(w.framework.files, path);
}

proof fn lemma_removed<K, V>(entries: Seq<(K, V)>, key: K)
    requires
        table::distinct(entries),
    ensures
        table::lookup(table::without(entries, key), key) is None,
        table::without(table::without(entries, key), key) == table::without(entries, key),
{
    table::lemma_place(entries, key);
    let rest = table::without(entries, key);
    table::lemma_place(rest, key);
    let i = table::place(entries, key);
    let j = table::place(rest, key);
    if i < entries.len() && j < rest.len() {
        if j < i {
            assert(rest[j as int] == entries[j as int]);
        } else {
            assert(rest[j as int] == entries[j as int + 1]);
        }
    }
}

// Players.

proof fn lemma_player_methods()
    ensures
        forall|w: WorldView, args: Seq<ValueView>| #[trigger]
            objects::media(w, "start"@, args) == gives(
                objects::with_player(
                    objects::known_player(w, objects::player_id(args)),
                    objects::player_id(args),
                    MediaPlayerState {
                        playing: true,
                        ..objects::player_state(w, objects::player_id(args))
                    },
                ),
                ValueView::Void,
            ),
        forall|w: WorldView, args: Seq<ValueView>| #[trigger]
            objects::media(w, "pause"@, args) == gives(
                objects::with_player(
                    objects::known_player(w, objects::player_id(args)),
                    objects::player_id(args),
                    MediaPlayerState {
                        playing: false,
                        ..objects::player_state(w, objects::player_id(args))
                    },
                ),
                ValueView::Void,
            ),
        forall|w: WorldView, args: Seq<ValueView>| #[trigger]
            objects::media(w, "isPlaying"@, args) == gives(
                objects::known_player(w, objects::player_id(args)),
                activity::truth(objects::player_state(w, objects::player_id(args)).playing),
            ),
{
    reveal_strlit("create");
    reveal_strlit("prepare");
    reveal_strlit("prepareAsync");
    reveal_strlit("start");
    reveal_strlit("pause");
    reveal_strlit("stop");
    reveal_strlit("reset");
    reveal_strlit("release");
    reveal_strlit("isPlaying");
    assert("create"@.len() == 6 && "prepare"@.len() == 7 && "prepareAsync"@.len() == 12
        && "start"@.len() == 5 && "pause"@.len() == 5 && "stop"@.len() == 4 && "reset"@.len() == 5
        && "release"@.len() == 7 && "isPlaying"@.len() == 9);
    assert("start"@[0] == 's' && "pause"@[0] == 'p');
}

/// A player plays once it is started, until it is paused.
pub proof fn a_player_plays_until_it_is_paused(w: WorldView, args: Seq<ValueView>)
    ensures
        ({
            let started = objects::media(w, "start"@, args).0;
            let paused = objects::media(started, "pause"@, args).0;
            &&& objects::media(started, "isPlaying"@, args) == gives(started, ValueView::Int(1))
            &&& objects::media(paused, "isPlaying"@, args) == gives(paused, ValueView::Int(0))
        }),
{
    lemma_player_methods();
    let id = objects::player_id(args);
    let known = objects::known_player(w, id);
    let state = objects::player_state(w, id);
    let playing = MediaPlayerState { playing: true, ..state };
    table::store_then_lookup(known.framework.media_players, id, playing, id);
    let started = objects::with_player(known, id, playing);
    let quiet = MediaPlayerState { playing: false, ..objects::player_state(started, id) };
    table::store_then_lookup(started.framework.media_players, id, quiet, id);
}

// Intents.

/// Flags that are set are read again, and flags that are added stand beside them.
pub proof fn flags_are_read_as_they_were_set(w: WorldView, intent: ObjectId, n: i32, m: i32)
    requires
        w.class_of(intent) is Some,
    ensures
        ({
            let me = ValueView::Object(intent);
            let set = activity::intent(w, "setFlags"@, seq![me, ValueView::Int(n)]).0;
            let both = activity::intent(set, "addFlags"@, seq![me, ValueView::Int(m)]).0;
            &&& activity::intent(set, "getFlags"@, seq![me]) == gives(set, ValueView::Int(n))
            &&& activity::intent(both, "getFlags"@, seq![me]) == gives(
                both,
                ValueView::Int(n | m),
            )
        }),
{
    let me = ValueView::Object(intent);
    let setting = seq![me, ValueView::Int(n)];
    let adding = seq![me, ValueView::Int(m)];
    let getting = seq![me];
    assert(value::at(setting, 0) == Some(me) && value::at(setting, 1) == Some(ValueView::Int(n)));
    assert(value::at(adding, 0) == Some(me) && value::at(adding, 1) == Some(ValueView::Int(m)));
    assert(value::at(getting, 0) == Some(me));
    lemma_flag_methods();
    memory::a_field_holds_what_is_set(w, intent, "flags"@, ValueView::Int(n), "flags"@, intent);
    let set = w.with_field(intent, "flags"@, ValueView::Int(n));
    let added = ValueView::Int(n | m);
    memory::a_field_holds_what_is_set(set, intent, "flags"@, added, "flags"@, intent);
}

proof fn lemma_flag_methods()
    ensures
        "setFlags"@ != "<init>"@,
        "addFlags"@ != "<init>"@,
        "setFlags"@ != "addFlags"@,
        "getFlags"@ != "<init>"@,
        "getFlags"@ != "addFlags"@,
        "getFlags"@ != "setFlags"@,
        "getFlags"@ != "putExtra"@,
        !activity::fluent("getFlags"@),
{
    reveal_strlit("<init>");
    reveal_strlit("setFlags");
    reveal_strlit("addFlags");
    reveal_strlit("getFlags");
    reveal_strlit("putExtra");
    reveal_strlit("addCategory");
    reveal_strlit("setAction");
    reveal_strlit("setData");
    reveal_strlit("setType");
    reveal_strlit("setPackage");
    reveal_strlit("setComponent");
    reveal_strlit("setClass");
    reveal_strlit("setClassName");
    assert("<init>"@[0] == '<' && "setFlags"@[0] == 's' && "addFlags"@[0] == 'a' && "getFlags"@[0]
        == 'g' && "putExtra"@[0] == 'p');
    assert("addCategory"@[0] == 'a' && "setAction"@[0] == 's' && "setData"@[0] == 's'
        && "setType"@[0] == 's' && "setPackage"@[0] == 's' && "setComponent"@[0] == 's'
        && "setClass"@[0] == 's' && "setClassName"@[0] == 's');
}

} // verus!
