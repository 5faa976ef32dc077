//! What has to be asked, the objects of the game, and what is made where nothing was.

use vstd::prelude::*;

use crate::code::ActivationView;
use crate::dex::DexFile;
use crate::error::ErrorView;
use crate::framework::activity;
use crate::framework::dispatch;
use crate::framework::graphics;
use crate::framework::math;
use crate::framework::objects;
use crate::framework::sorting;
use crate::framework::sorting::Keyed;
use crate::framework::strings;
use crate::gdx;
use crate::gdx::application;
use crate::gdx::maths;
use crate::host;
use crate::host::{AnswerView, QueryView, Style};
use crate::interp::execute;
use crate::laws::collections::lemma_keyed;
use crate::laws::memory;
use crate::laws::routing::lemma_does_not_start;
use crate::laws::steps;
use crate::laws::steps::{bits, keeps_but, whole, within};
use crate::laws::texts::digits_worth;
use crate::value;
use crate::value::{ObjectId, ObjectView, ValueView};
use crate::world;
use crate::world::WorldView;

verus! {

// Questions.

/// What the class `android.content.SharedPreferences` has to ask is asked by its own methods.
pub proof fn preferences_ask(
    w: WorldView,
    method: Seq<char>,
    args: Seq<ValueView>,
    answers: Seq<AnswerView>,
)
    ensures
        dispatch::question(w, "Landroid/content/SharedPreferences;"@, method, args, answers)
            == activity::preference_question(w, method, args, answers),
{
    reveal_strlit("Landroid/content/SharedPreferences;");
    assert("Landroid/content/SharedPreferences;"@.len() == 35);
    reveal_strlit("Ljava/util/Collections;");
    assert("Ljava/util/Collections;"@.len() == 23);
    reveal_strlit("Ljava/lang/System;");
    assert("Ljava/lang/System;"@.len() == 18);
}

/// What the class `android.graphics.Canvas` has to ask is asked by its own methods.
pub proof fn canvases_ask(
    w: WorldView,
    method: Seq<char>,
    args: Seq<ValueView>,
    answers: Seq<AnswerView>,
)
    ensures
        dispatch::question(w, "Landroid/graphics/Canvas;"@, method, args, answers)
            == graphics::canvas_question(w, method, args, answers),
{
    reveal_strlit("Landroid/graphics/Canvas;");
    assert("Landroid/graphics/Canvas;"@.len() == 25);
    reveal_strlit("Ljava/util/Collections;");
    assert("Ljava/util/Collections;"@.len() == 23);
    reveal_strlit("Ljava/lang/System;");
    assert("Ljava/lang/System;"@.len() == 18);
    reveal_strlit("Landroid/content/SharedPreferences;");
    assert("Landroid/content/SharedPreferences;"@.len() == 35);
}

/// What the class `android.graphics.BitmapFactory` has to ask is asked by its own methods.
pub proof fn bitmap_factories_ask(
    w: WorldView,
    method: Seq<char>,
    args: Seq<ValueView>,
    answers: Seq<AnswerView>,
)
    ensures
        dispatch::question(w, "Landroid/graphics/BitmapFactory;"@, method, args, answers)
            == graphics::factory_question(w, method, args, answers),
{
    reveal_strlit("Landroid/graphics/BitmapFactory;");
    assert("Landroid/graphics/BitmapFactory;"@.len() == 32);
    reveal_strlit("Ljava/util/Collections;");
    assert("Ljava/util/Collections;"@.len() == 23);
    reveal_strlit("Ljava/lang/System;");
    assert("Ljava/lang/System;"@.len() == 18);
    reveal_strlit("Landroid/content/SharedPreferences;");
    assert("Landroid/content/SharedPreferences;"@.len() == 35);
    reveal_strlit("Landroid/graphics/Canvas;");
    assert("Landroid/graphics/Canvas;"@.len() == 25);
}

/// What the class `android.content.SharedPreferences$Editor` has to ask is asked by its own methods.
pub proof fn editors_ask(
    w: WorldView,
    method: Seq<char>,
    args: Seq<ValueView>,
    answers: Seq<AnswerView>,
)
    ensures
        dispatch::question(w, "Landroid/content/SharedPreferences$Editor;"@, method, args, answers)
            == activity::editor_question(method, args, answers),
{
    reveal_strlit("Landroid/content/SharedPreferences$Editor;");
    assert("Landroid/content/SharedPreferences$Editor;"@.len() == 42);
    reveal_strlit("Ljava/util/Collections;");
    assert("Ljava/util/Collections;"@.len() == 23);
    reveal_strlit("Ljava/lang/System;");
    assert("Ljava/lang/System;"@.len() == 18);
    reveal_strlit("Landroid/content/SharedPreferences;");
    assert("Landroid/content/SharedPreferences;"@.len() == 35);
    reveal_strlit("Landroid/graphics/Canvas;");
    assert("Landroid/graphics/Canvas;"@.len() == 25);
    reveal_strlit("Landroid/graphics/BitmapFactory;");
    assert("Landroid/graphics/BitmapFactory;"@.len() == 32);
}

/// What the class `java.lang.Math` has to ask is asked by its own methods.
pub proof fn mathematics_asks(
    w: WorldView,
    method: Seq<char>,
    args: Seq<ValueView>,
    answers: Seq<AnswerView>,
)
    ensures
        dispatch::question(w, "Ljava/lang/Math;"@, method, args, answers)
            == math::question(method, args, answers),
{
    reveal_strlit("Ljava/lang/Math;");
    assert("Ljava/lang/Math;"@.len() == 16);
    reveal_strlit("Ljava/util/Collections;");
    assert("Ljava/util/Collections;"@.len() == 23);
    reveal_strlit("Ljava/lang/System;");
    assert("Ljava/lang/System;"@.len() == 18);
    reveal_strlit("Landroid/content/SharedPreferences;");
    assert("Landroid/content/SharedPreferences;"@.len() == 35);
    reveal_strlit("Landroid/graphics/Canvas;");
    assert("Landroid/graphics/Canvas;"@.len() == 25);
    reveal_strlit("Landroid/graphics/BitmapFactory;");
    assert("Landroid/graphics/BitmapFactory;"@.len() == 32);
    reveal_strlit("Landroid/content/SharedPreferences$Editor;");
    assert("Landroid/content/SharedPreferences$Editor;"@.len() == 42);
}

/// What the class `java.lang.Float` has to ask is asked by its own methods.
pub proof fn boxes_ask(
    w: WorldView,
    method: Seq<char>,
    args: Seq<ValueView>,
    answers: Seq<AnswerView>,
)
    ensures
        dispatch::question(w, "Ljava/lang/Float;"@, method, args, answers)
            == strings::box_question(w, method, args, answers),
{
    reveal_strlit("Ljava/lang/Float;");
    assert("Ljava/lang/Float;"@.len() == 17);
    reveal_strlit("Ljava/util/Collections;");
    assert("Ljava/util/Collections;"@.len() == 23);
    reveal_strlit("Ljava/lang/System;");
    assert("Ljava/lang/System;"@.len() == 18);
    reveal_strlit("Landroid/content/SharedPreferences;");
    assert("Landroid/content/SharedPreferences;"@.len() == 35);
    reveal_strlit("Landroid/graphics/Canvas;");
    assert("Landroid/graphics/Canvas;"@.len() == 25);
    reveal_strlit("Landroid/graphics/BitmapFactory;");
    assert("Landroid/graphics/BitmapFactory;"@.len() == 32);
    reveal_strlit("Landroid/content/SharedPreferences$Editor;");
    assert("Landroid/content/SharedPreferences$Editor;"@.len() == 42);
    reveal_strlit("Ljava/lang/Math;");
    assert("Ljava/lang/Math;"@.len() == 16);
    reveal_strlit("Landroid/view/MotionEvent;");
    assert("Landroid/view/MotionEvent;"@.len() == 26);
    reveal_strlit("Landroid/view/animation/AnimationUtils;");
    assert("Landroid/view/animation/AnimationUtils;"@.len() == 39);
    reveal_strlit("Landroid/view/animation/Animation;");
    assert("Landroid/view/animation/Animation;"@.len() == 34);
    reveal_strlit("Landroid/view/");
    assert("Ljava/lang/Float;"@[1] == 'j' && "Landroid/view/"@[1] == 'a');
    lemma_does_not_start("Ljava/lang/Float;"@, "Landroid/view/"@, 1);
    reveal_strlit("Landroid/widget/");
    assert("Ljava/lang/Float;"@[1] == 'j' && "Landroid/widget/"@[1] == 'a');
    lemma_does_not_start("Ljava/lang/Float;"@, "Landroid/widget/"@, 1);
    reveal_strlit("Landroid/opengl/GLSurfaceView;");
    assert("Landroid/opengl/GLSurfaceView;"@.len() == 30);
    reveal_strlit("Ljava/lang/Integer;");
    assert("Ljava/lang/Integer;"@.len() == 19);
    reveal_strlit("Ljava/lang/Long;");
    assert("Ljava/lang/Long;"@.len() == 16);
}

/// What the class `java.lang.String` has to ask is asked by its own methods.
pub proof fn strings_ask(
    w: WorldView,
    method: Seq<char>,
    args: Seq<ValueView>,
    answers: Seq<AnswerView>,
)
    ensures
        dispatch::question(w, "Ljava/lang/String;"@, method, args, answers)
            == strings::string_question(w, method, args, answers),
{
    reveal_strlit("Ljava/lang/String;");
    assert("Ljava/lang/String;"@.len() == 18);
    reveal_strlit("Ljava/util/Collections;");
    assert("Ljava/util/Collections;"@.len() == 23);
    reveal_strlit("Ljava/lang/System;");
    assert("Ljava/lang/String;"@[12] == 't' && "Ljava/lang/System;"@[12] == 'y');
    reveal_strlit("Landroid/content/SharedPreferences;");
    assert("Landroid/content/SharedPreferences;"@.len() == 35);
    reveal_strlit("Landroid/graphics/Canvas;");
    assert("Landroid/graphics/Canvas;"@.len() == 25);
    reveal_strlit("Landroid/graphics/BitmapFactory;");
    assert("Landroid/graphics/BitmapFactory;"@.len() == 32);
    reveal_strlit("Landroid/content/SharedPreferences$Editor;");
    assert("Landroid/content/SharedPreferences$Editor;"@.len() == 42);
    reveal_strlit("Ljava/lang/Math;");
    assert("Ljava/lang/Math;"@.len() == 16);
    reveal_strlit("Landroid/view/MotionEvent;");
    assert("Landroid/view/MotionEvent;"@.len() == 26);
    reveal_strlit("Landroid/view/animation/AnimationUtils;");
    assert("Landroid/view/animation/AnimationUtils;"@.len() == 39);
    reveal_strlit("Landroid/view/animation/Animation;");
    assert("Landroid/view/animation/Animation;"@.len() == 34);
    reveal_strlit("Landroid/view/");
    assert("Ljava/lang/String;"@[1] == 'j' && "Landroid/view/"@[1] == 'a');
    lemma_does_not_start("Ljava/lang/String;"@, "Landroid/view/"@, 1);
    reveal_strlit("Landroid/widget/");
    assert("Ljava/lang/String;"@[1] == 'j' && "Landroid/widget/"@[1] == 'a');
    lemma_does_not_start("Ljava/lang/String;"@, "Landroid/widget/"@, 1);
    reveal_strlit("Landroid/opengl/GLSurfaceView;");
    assert("Landroid/opengl/GLSurfaceView;"@.len() == 30);
    reveal_strlit("Ljava/lang/Integer;");
    assert("Ljava/lang/Integer;"@.len() == 19);
    reveal_strlit("Ljava/lang/Long;");
    assert("Ljava/lang/Long;"@.len() == 16);
    reveal_strlit("Ljava/lang/Float;");
    assert("Ljava/lang/Float;"@.len() == 17);
    reveal_strlit("Ljava/lang/Double;");
    assert("Ljava/lang/String;"@[11] == 'S' && "Ljava/lang/Double;"@[11] == 'D');
    reveal_strlit("Ljava/lang/Boolean;");
    assert("Ljava/lang/Boolean;"@.len() == 19);
}

/// What the class `java.lang.StringBuilder` has to ask is asked by its own methods.
pub proof fn builders_ask(
    w: WorldView,
    method: Seq<char>,
    args: Seq<ValueView>,
    answers: Seq<AnswerView>,
)
    ensures
        dispatch::question(w, "Ljava/lang/StringBuilder;"@, method, args, answers)
            == strings::builder_question(method, args, answers),
{
    reveal_strlit("Ljava/lang/StringBuilder;");
    assert("Ljava/lang/StringBuilder;"@.len() == 25);
    reveal_strlit("Ljava/util/Collections;");
    assert("Ljava/util/Collections;"@.len() == 23);
    reveal_strlit("Ljava/lang/System;");
    assert("Ljava/lang/System;"@.len() == 18);
    reveal_strlit("Landroid/content/SharedPreferences;");
    assert("Landroid/content/SharedPreferences;"@.len() == 35);
    reveal_strlit("Landroid/graphics/Canvas;");
    assert("Ljava/lang/StringBuilder;"@[1] == 'j' && "Landroid/graphics/Canvas;"@[1] == 'a');
    reveal_strlit("Landroid/graphics/BitmapFactory;");
    assert("Landroid/graphics/BitmapFactory;"@.len() == 32);
    reveal_strlit("Landroid/content/SharedPreferences$Editor;");
    assert("Landroid/content/SharedPreferences$Editor;"@.len() == 42);
    reveal_strlit("Ljava/lang/Math;");
    assert("Ljava/lang/Math;"@.len() == 16);
    reveal_strlit("Landroid/view/MotionEvent;");
    assert("Landroid/view/MotionEvent;"@.len() == 26);
    reveal_strlit("Landroid/view/animation/AnimationUtils;");
    assert("Landroid/view/animation/AnimationUtils;"@.len() == 39);
    reveal_strlit("Landroid/view/animation/Animation;");
    assert("Landroid/view/animation/Animation;"@.len() == 34);
    reveal_strlit("Landroid/view/");
    assert("Ljava/lang/StringBuilder;"@[1] == 'j' && "Landroid/view/"@[1] == 'a');
    lemma_does_not_start("Ljava/lang/StringBuilder;"@, "Landroid/view/"@, 1);
    reveal_strlit("Landroid/widget/");
    assert("Ljava/lang/StringBuilder;"@[1] == 'j' && "Landroid/widget/"@[1] == 'a');
    lemma_does_not_start("Ljava/lang/StringBuilder;"@, "Landroid/widget/"@, 1);
    reveal_strlit("Landroid/opengl/GLSurfaceView;");
    assert("Landroid/opengl/GLSurfaceView;"@.len() == 30);
    reveal_strlit("Ljava/lang/Integer;");
    assert("Ljava/lang/Integer;"@.len() == 19);
    reveal_strlit("Ljava/lang/Long;");
    assert("Ljava/lang/Long;"@.len() == 16);
    reveal_strlit("Ljava/lang/Float;");
    assert("Ljava/lang/Float;"@.len() == 17);
    reveal_strlit("Ljava/lang/Double;");
    assert("Ljava/lang/Double;"@.len() == 18);
    reveal_strlit("Ljava/lang/Boolean;");
    assert("Ljava/lang/Boolean;"@.len() == 19);
    reveal_strlit("Ljava/lang/String;");
    assert("Ljava/lang/String;"@.len() == 18);
}

/// The files, the graphics and the mathematics of the game library ask their own questions.
pub proof fn the_game_library_asks(
    w: WorldView,
    method: Seq<char>,
    args: Seq<ValueView>,
    answers: Seq<AnswerView>,
)
    requires
        method != "<clinit>"@,
    ensures
        gdx::dispatch::question(
            w,
            "Lcom/badlogic/gdx/backends/android/AndroidApplication;"@,
            method,
            args,
            answers,
        ) == application::android_question(method, args, answers),
        gdx::dispatch::question(
            w,
            "Lcom/badlogic/gdx/files/FileHandle;"@,
            method,
            args,
            answers,
        ) == application::handle_question(w, method, args, answers),
        gdx::dispatch::question(w, "Lcom/badlogic/gdx/math/MathUtils;"@, method, args, answers)
            == maths::question(method, args, answers),
{
    lemma_game_classes();
}

/// These names are different.
proof fn lemma_game_classes()
    ensures
        "Lcom/badlogic/gdx/backends/android/AndroidGraphics;"@ != "Lcom/badlogic/gdx/backends/android/AndroidApplication;"@,
        "Lcom/badlogic/gdx/files/FileHandle;"@ != "Lcom/badlogic/gdx/backends/android/AndroidApplication;"@,
        "Lcom/badlogic/gdx/files/FileHandle;"@ != "Lcom/badlogic/gdx/backends/android/AndroidGraphics;"@,
        "Lcom/badlogic/gdx/math/MathUtils;"@ != "Lcom/badlogic/gdx/backends/android/AndroidApplication;"@,
        "Lcom/badlogic/gdx/math/MathUtils;"@ != "Lcom/badlogic/gdx/backends/android/AndroidGraphics;"@,
        "Lcom/badlogic/gdx/math/MathUtils;"@ != "Lcom/badlogic/gdx/files/FileHandle;"@,
{
    reveal_strlit("Lcom/badlogic/gdx/backends/android/AndroidApplication;");
    reveal_strlit("Lcom/badlogic/gdx/backends/android/AndroidGraphics;");
    reveal_strlit("Lcom/badlogic/gdx/files/FileHandle;");
    reveal_strlit("Lcom/badlogic/gdx/math/MathUtils;");
    assert("Lcom/badlogic/gdx/backends/android/AndroidApplication;"@.len() == 54);
    assert("Lcom/badlogic/gdx/backends/android/AndroidGraphics;"@.len() == 51);
    assert("Lcom/badlogic/gdx/files/FileHandle;"@.len() == 35);
    assert("Lcom/badlogic/gdx/math/MathUtils;"@.len() == 33);
}

/// These names are different.
proof fn lemma_view_methods()
    ensures
        "setContentView"@ != "initializeForView"@,
{
    reveal_strlit("initializeForView");
    reveal_strlit("setContentView");
    assert("initializeForView"@.len() == 17);
    assert("setContentView"@.len() == 14);
}

/// A view for the game is asked for by its class, and shown in the activity that shows it.
pub proof fn a_view_of_the_game_is_asked_for(
    args: Seq<ValueView>,
    app: ObjectId,
    view: ObjectId,
)
    requires
        args.len() >= 2,
        args[0] == ValueView::Object(app),
        args[1] == ValueView::Object(view),
    ensures
        application::android_question("initializeForView"@, args, Seq::empty()) == Some(
            QueryView::AllocView("Landroid/opengl/GLSurfaceView;"@),
        ),
        application::android_question("setContentView"@, args, Seq::empty()) == Some(
            QueryView::SetContentView { activity: app, view },
        ),
{
    lemma_view_methods();
}

/// A number is formatted as the surroundings write it, an integer with its digits.
pub proof fn a_number_is_formatted(
    w: WorldView,
    format: ObjectId,
    d: u64,
    n: i32,
    written: Seq<char>,
)
    requires
        n >= 0,
    ensures
        ({
            let args = seq![ValueView::Object(format), ValueView::Double(d)];
            let whole = seq![ValueView::Object(format), ValueView::Int(n)];
            let given = seq![AnswerView::Text(written)];
            &&& objects::format_question("format"@, args, Seq::empty()) == Some(
                QueryView::Number { number: ValueView::Double(d), style: Style::Fixed },
            )
            &&& objects::decimal_format(w, "format"@, args, given) == (
                w,
                Ok::<ValueView, ErrorView>(ValueView::String(written)),
            )
            &&& objects::decimal_format(w, "format"@, whole, Seq::empty()).1 matches Ok(
                ValueView::String(s),
            ) && digits_worth(s, 10) == n
        }),
{
    reveal_strlit("format");
    reveal_strlit("<init>");
    assert("format"@[0] == 'f' && "<init>"@[0] == '<');
    let args = seq![ValueView::Object(format), ValueView::Double(d)];
    let whole = seq![ValueView::Object(format), ValueView::Int(n)];
    let given = seq![AnswerView::Text(written)];
    assert(value::at(args, 0) == Some(ValueView::Object(format)));
    assert(value::at(args, 1) == Some(ValueView::Double(d)));
    assert(value::at(whole, 0) == Some(ValueView::Object(format)));
    assert(value::at(whole, 1) == Some(ValueView::Int(n)));
    assert(host::text_in(given, 0) == written);
    crate::laws::texts::an_integer_is_written_with_its_sign(n as int);
}

// The objects of the game.

/// The first time that the game asks for one of its objects, a new one of the right class is made.
pub proof fn the_game_objects_have_their_classes(w: WorldView)
    requires
        0 < w.heap.len() < u32::MAX,
    ensures
        ({
            let id = w.heap.len() as ObjectId;
            let made = |e: (WorldView, Result<ValueView, ErrorView>), class_name: Seq<char>|
                e.0.class_of(id) == Some(class_name) && e.1 == Ok::<ValueView, ErrorView>(
                    ValueView::Object(id),
                );
            &&& w.framework.gdx_input is None ==> made(
                application::get_input(w),
                "Lcom/badlogic/gdx/Input;"@,
            )
            &&& w.framework.gdx_audio is None ==> made(
                application::get_audio(w),
                "Lcom/badlogic/gdx/Audio;"@,
            )
            &&& w.framework.gdx_files is None ==> made(
                application::get_files(w),
                "Lcom/badlogic/gdx/Files;"@,
            )
            &&& w.framework.gdx_graphics is None ==> made(
                application::get_graphics(w),
                "Lcom/badlogic/gdx/Graphics;"@,
            )
        }),
{
}

/// An activity has the intent that it was given; one that was given none has a new one. Either has
/// extras.
pub proof fn an_activity_has_its_intent(w: WorldView, act: ObjectId, given: ObjectId)
    requires
        w.class_of(act) is Some,
        w.class_of(given) is Some,
        w.field(act, "intent"@) == Some(ValueView::Object(given)),
        w.heap.len() < u32::MAX,
    ensures
        ({
            let (after, r) = activity::get_intent(w, seq![ValueView::Object(act)]);
            &&& r == Ok::<ValueView, ErrorView>(ValueView::Object(given))
            &&& after.field_object(given, "extras"@) is Some
            &&& w.field_object(given, "extras"@) is Some ==> after == w
        }),
{
    let args = seq![ValueView::Object(act)];
    assert(value::at(args, 0) == Some(ValueView::Object(act)));
    let made = w.with_object(world::instance_of("Landroid/os/Bundle;"@));
    let extras = ValueView::Object(w.fresh());
    assert(made.class_of(given) is Some);
    memory::a_field_holds_what_is_set(made, given, "extras"@, extras, "extras"@, given);
}

// Fields that are made when they are read.

/// A list that was never stored in a field of an instance is made when it is read: it is new, empty
/// and stored there.
pub proof fn a_missing_list_is_made(
    dex: &DexFile,
    words: Seq<u16>,
    w: WorldView,
    a: ActivationView,
    opcode: u8,
    instruction: u16,
    id: ObjectId,
    class_name: Seq<char>,
)
    requires
        0x52 <= opcode <= 0x58,
        whole(words, a, 2),
        within(a, bits(instruction, 8, 0xf)),
        within(a, bits(instruction, 12, 0xf)),
        a.registers[bits(instruction, 12, 0xf)] == ValueView::Object(id),
        w.object(id) == Some(ObjectView::Instance { class_name, fields: Seq::empty() }),
        w.heap.len() < u32::MAX,
        words[a.pc + 1] < dex.fields.len(),
        dex.fields[words[a.pc + 1] as int].name@ != "mMainLayer"@,
        dex.fields[words[a.pc + 1] as int].descriptor@ == "Ljava/util/ArrayList;"@,
    ensures
        ({
            let dest = bits(instruction, 8, 0xf);
            let made = ValueView::Object(w.heap.len() as ObjectId);
            let (world, stepped) = execute::plain_step(dex, words, w, a, opcode, instruction);
            &&& world.object(w.heap.len() as ObjectId) == Some(
                ObjectView::Collection(Seq::empty()),
            )
            &&& world.field(id, dex.key(words[a.pc + 1] as nat)) == Some(made)
            &&& stepped matches Ok(after) && keeps_but(a, after, dest, 2) && after.registers[dest]
                == made
        }),
{
    steps::the_parts_of_a_word(instruction);
    let key = dex.key(words[a.pc + 1] as nat);
    let made = w.with_object(ObjectView::Collection(Seq::empty()));
    assert(made.object(id) == w.object(id));
    let v = ValueView::Object(w.fresh());
    memory::a_field_holds_what_is_set(made, id, key, v, key, w.fresh());
}

// Sorting.

/// Sorting a list of texts leaves the same values, with no text in front of one that comes before
/// it.
pub proof fn a_list_of_texts_is_sorted(
    w: WorldView,
    id: ObjectId,
    values: Seq<ValueView>,
    answers: Seq<AnswerView>,
)
    requires
        w.object(id) == Some(ObjectView::Collection(values)),
        forall|i: int| 0 <= i < values.len() ==> (#[trigger] values[i]) is String,
    ensures
        sorting::sort(w, seq![ValueView::Object(id)], answers).0.object(id) matches Some(
            ObjectView::Collection(sorted),
        ) && sorted.len() == values.len() && forall|i: int, j: int|
            0 <= i < j < sorted.len() ==> ((#[trigger] sorted[i]) matches ValueView::String(s) && ((
            #[trigger] sorted[j]) matches ValueView::String(t) && sorting::text_order(s, t) <= 0)),
{
    let args = seq![ValueView::Object(id)];
    assert(value::at(args, 0) == Some(ValueView::Object(id)));
    let numbers = sorting::numbers_in(answers);
    let items = sorting::keyed(values, numbers);
    lemma_keyed(values, numbers);
    lemma_keyed_texts(values, numbers);
    assert forall|x: Keyed| items.contains(x) implies x.0 == ValueView::String(x.1) by {
        let i = choose|i: int| 0 <= i < items.len() && items[i] == x;
        assert(values[i] is String);
    }
    assert(sorting::sortable(items)) by {
        assert forall|a: Keyed, b: Keyed|
            items.contains(a) && items.contains(b) && #[trigger] sorting::keyed_order(a, b)
                > 0 implies sorting::keyed_order(b, a) <= 0 by {
            lemma_reversed(a.1, b.1);
        }
        assert forall|a: Keyed, b: Keyed, c: Keyed|
            items.contains(a) && items.contains(b) && items.contains(c)
                && #[trigger] sorting::keyed_order(a, b) <= 0 && #[trigger] sorting::keyed_order(b, c)
                <= 0 implies sorting::keyed_order(a, c) <= 0 by {
            lemma_chained(a.1, b.1, c.1);
        }
    }
    sorting::sorting_sorts(items);
    sorting::sorting_keeps_values(items);
    let sorted = sorting::in_order(items);
    assert forall|i: int| 0 <= i < sorted.len() implies (#[trigger] sorted[i]).0
        == ValueView::String(sorted[i].1) by {
        sorting::lemma_same_items(sorted, items, sorted[i]);
        assert(sorted.contains(sorted[i]));
    }
    let parts = sorting::first_parts(sorted);
    assert forall|i: int, j: int| 0 <= i < j < parts.len() implies ((
    #[trigger] parts[i]) matches ValueView::String(s) && ((#[trigger] parts[j]) matches ValueView::String(t)
        && sorting::text_order(s, t) <= 0)) by {
        assert(parts[i] == sorted[i].0 && parts[j] == sorted[j].0);
        assert(sorting::keyed_order(sorted[i], sorted[j]) <= 0);
    }
    broadcast use vstd::seq_lib::group_to_multiset_ensures;

    assert(sorted.len() == sorted.to_multiset().len());
    assert(items.len() == items.to_multiset().len());
}

proof fn lemma_keyed_texts(values: Seq<ValueView>, numbers: Seq<Seq<char>>)
    ensures
        sorting::keyed(values, numbers).len() == values.len(),
        forall|i: int|
            0 <= i < values.len() && values[i] is String ==> (#[trigger] sorting::keyed(
                values,
                numbers,
            )[i]).1 == values[i]->String_0,
    decreases values.len(),
{
    if values.len() > 0 {
        lemma_keyed_texts(values.drop_last(), numbers);
    }
}

proof fn lemma_reversed(a: Seq<char>, b: Seq<char>)
    ensures
        sorting::text_order(a, b) > 0 <==> sorting::text_order(b, a) < 0,
    decreases a.len(),
{
    if a.len() > 0 && b.len() > 0 {
        lemma_reversed(a.skip(1), b.skip(1));
    }
}

proof fn lemma_chained(a: Seq<char>, b: Seq<char>, c: Seq<char>)
    requires
        sorting::text_order(a, b) <= 0,
        sorting::text_order(b, c) <= 0,
    ensures
        sorting::text_order(a, c) <= 0,
    decreases a.len(),
{
    if a.len() > 0 && b.len() > 0 && c.len() > 0 && a[0] == b[0] && b[0] == c[0] {
        lemma_chained(a.skip(1), b.skip(1), c.skip(1));
    }
}

} // verus!
