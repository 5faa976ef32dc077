//! Which methods answer for which class.

use vstd::prelude::*;

use crate::framework::activity;
use crate::framework::dispatch;
use crate::framework::graphics;
use crate::framework::lists;
use crate::framework::math;
use crate::framework::objects;
use crate::framework::strings;
use crate::framework::system;
use crate::gdx;
use crate::gdx::sprites;
use crate::host::AnswerView;
use crate::text;
use crate::value::ValueView;
use crate::world::WorldView;

verus! {

pub proof fn lemma_does_not_start(s: Seq<char>, p: Seq<char>, k: int)
    requires
        0 <= k < p.len(),
        k < s.len(),
        s[k] != p[k],
    ensures
        !text::starts(s, p),
{
    if text::starts(s, p) {
        assert(s.subrange(0, p.len() as int)[k] == p[k]);
    }
}

/// The class `android.util.Log` is answered for by its own methods.
pub proof fn logs_are_answered_for(
    w: WorldView,
    method: Seq<char>,
    args: Seq<ValueView>,
    answers: Seq<AnswerView>,
)
    ensures
        dispatch::performed(w, "Landroid/util/Log;"@, method, args, answers) == system::log(w, method, args),
{
    reveal_strlit("Landroid/util/Log;");
    assert("Landroid/util/Log;"@.len() == 18);
}

/// The class `java.lang.Thread` is answered for by its own methods.
pub proof fn threads_are_answered_for(
    w: WorldView,
    method: Seq<char>,
    args: Seq<ValueView>,
    answers: Seq<AnswerView>,
)
    ensures
        dispatch::performed(w, "Ljava/lang/Thread;"@, method, args, answers) == system::thread(w, method, args),
{
    reveal_strlit("Ljava/lang/Thread;");
    assert("Ljava/lang/Thread;"@.len() == 18);
    reveal_strlit("Landroid/util/Log;");
    assert("Ljava/lang/Thread;"@[1] == 'j' && "Landroid/util/Log;"@[1] == 'a');
    reveal_strlit("Ljava/util/Collections;");
    assert("Ljava/util/Collections;"@.len() == 23);
    reveal_strlit("Ljava/io/PrintStream;");
    assert("Ljava/io/PrintStream;"@.len() == 21);
}

/// The class `android.content.Intent` is answered for by its own methods.
pub proof fn intents_are_answered_for(
    w: WorldView,
    method: Seq<char>,
    args: Seq<ValueView>,
    answers: Seq<AnswerView>,
)
    ensures
        dispatch::performed(w, "Landroid/content/Intent;"@, method, args, answers) == activity::intent(w, method, args),
{
    reveal_strlit("Landroid/content/Intent;");
    assert("Landroid/content/Intent;"@.len() == 24);
    reveal_strlit("Landroid/util/Log;");
    assert("Landroid/util/Log;"@.len() == 18);
    reveal_strlit("Ljava/util/Collections;");
    assert("Ljava/util/Collections;"@.len() == 23);
    reveal_strlit("Ljava/io/PrintStream;");
    assert("Ljava/io/PrintStream;"@.len() == 21);
    reveal_strlit("Ljava/lang/Thread;");
    assert("Ljava/lang/Thread;"@.len() == 18);
    reveal_strlit("Landroid/os/Looper;");
    assert("Landroid/os/Looper;"@.len() == 19);
    reveal_strlit("Ljava/lang/System;");
    assert("Ljava/lang/System;"@.len() == 18);
    reveal_strlit("Ljava/util/Locale;");
    assert("Ljava/util/Locale;"@.len() == 18);
}

/// The class `android.content.Context` is answered for by its own methods.
pub proof fn contexts_are_answered_for(
    w: WorldView,
    method: Seq<char>,
    args: Seq<ValueView>,
    answers: Seq<AnswerView>,
)
    ensures
        dispatch::performed(w, "Landroid/content/Context;"@, method, args, answers) == activity::context(w, method, args),
{
    reveal_strlit("Landroid/content/Context;");
    assert("Landroid/content/Context;"@.len() == 25);
    reveal_strlit("Landroid/util/Log;");
    assert("Landroid/util/Log;"@.len() == 18);
    reveal_strlit("Ljava/util/Collections;");
    assert("Ljava/util/Collections;"@.len() == 23);
    reveal_strlit("Ljava/io/PrintStream;");
    assert("Ljava/io/PrintStream;"@.len() == 21);
    reveal_strlit("Ljava/lang/Thread;");
    assert("Ljava/lang/Thread;"@.len() == 18);
    reveal_strlit("Landroid/os/Looper;");
    assert("Landroid/os/Looper;"@.len() == 19);
    reveal_strlit("Ljava/lang/System;");
    assert("Ljava/lang/System;"@.len() == 18);
    reveal_strlit("Ljava/util/Locale;");
    assert("Ljava/util/Locale;"@.len() == 18);
    reveal_strlit("Landroid/content/Intent;");
    assert("Landroid/content/Intent;"@.len() == 24);
    reveal_strlit("Landroid/os/Environment;");
    assert("Landroid/os/Environment;"@.len() == 24);
}

/// The class `android.content.SharedPreferences` is answered for by its own methods.
pub proof fn preferences_are_answered_for(
    w: WorldView,
    method: Seq<char>,
    args: Seq<ValueView>,
    answers: Seq<AnswerView>,
)
    ensures
        dispatch::performed(w, "Landroid/content/SharedPreferences;"@, method, args, answers) == activity::preferences(w, method, args, answers),
{
    reveal_strlit("Landroid/content/SharedPreferences;");
    assert("Landroid/content/SharedPreferences;"@.len() == 35);
    reveal_strlit("Landroid/util/Log;");
    assert("Landroid/util/Log;"@.len() == 18);
    reveal_strlit("Ljava/util/Collections;");
    assert("Ljava/util/Collections;"@.len() == 23);
    reveal_strlit("Ljava/io/PrintStream;");
    assert("Ljava/io/PrintStream;"@.len() == 21);
    reveal_strlit("Ljava/lang/Thread;");
    assert("Ljava/lang/Thread;"@.len() == 18);
    reveal_strlit("Landroid/os/Looper;");
    assert("Landroid/os/Looper;"@.len() == 19);
    reveal_strlit("Ljava/lang/System;");
    assert("Ljava/lang/System;"@.len() == 18);
    reveal_strlit("Ljava/util/Locale;");
    assert("Ljava/util/Locale;"@.len() == 18);
    reveal_strlit("Landroid/content/Intent;");
    assert("Landroid/content/Intent;"@.len() == 24);
    reveal_strlit("Landroid/os/Environment;");
    assert("Landroid/os/Environment;"@.len() == 24);
    reveal_strlit("Landroid/content/Context;");
    assert("Landroid/content/Context;"@.len() == 25);
    reveal_strlit("Landroid/app/");
    assert("Landroid/content/SharedPreferences;"@[9] == 'c' && "Landroid/app/"@[9] == 'a');
    lemma_does_not_start("Landroid/content/SharedPreferences;"@, "Landroid/app/"@, 9);
}

/// The class `android.content.res.Resources` is answered for by its own methods.
pub proof fn resources_are_answered_for(
    w: WorldView,
    method: Seq<char>,
    args: Seq<ValueView>,
    answers: Seq<AnswerView>,
)
    ensures
        dispatch::performed(w, "Landroid/content/res/Resources;"@, method, args, answers) == activity::resources(w, method, args),
{
    reveal_strlit("Landroid/content/res/Resources;");
    assert("Landroid/content/res/Resources;"@.len() == 31);
    reveal_strlit("Landroid/util/Log;");
    assert("Landroid/util/Log;"@.len() == 18);
    reveal_strlit("Ljava/util/Collections;");
    assert("Ljava/util/Collections;"@.len() == 23);
    reveal_strlit("Ljava/io/PrintStream;");
    assert("Ljava/io/PrintStream;"@.len() == 21);
    reveal_strlit("Ljava/lang/Thread;");
    assert("Ljava/lang/Thread;"@.len() == 18);
    reveal_strlit("Landroid/os/Looper;");
    assert("Landroid/os/Looper;"@.len() == 19);
    reveal_strlit("Ljava/lang/System;");
    assert("Ljava/lang/System;"@.len() == 18);
    reveal_strlit("Ljava/util/Locale;");
    assert("Ljava/util/Locale;"@.len() == 18);
    reveal_strlit("Landroid/content/Intent;");
    assert("Landroid/content/Intent;"@.len() == 24);
    reveal_strlit("Landroid/os/Environment;");
    assert("Landroid/os/Environment;"@.len() == 24);
    reveal_strlit("Landroid/content/Context;");
    assert("Landroid/content/Context;"@.len() == 25);
    reveal_strlit("Landroid/app/");
    assert("Landroid/content/res/Resources;"@[9] == 'c' && "Landroid/app/"@[9] == 'a');
    lemma_does_not_start("Landroid/content/res/Resources;"@, "Landroid/app/"@, 9);
    reveal_strlit("Landroid/content/SharedPreferences;");
    assert("Landroid/content/SharedPreferences;"@.len() == 35);
}

/// The class `android.content.SharedPreferences$Editor` is answered for by its own methods.
pub proof fn editors_are_answered_for(
    w: WorldView,
    method: Seq<char>,
    args: Seq<ValueView>,
    answers: Seq<AnswerView>,
)
    ensures
        dispatch::performed(w, "Landroid/content/SharedPreferences$Editor;"@, method, args, answers) == activity::editor(w, method, args, answers),
{
    reveal_strlit("Landroid/content/SharedPreferences$Editor;");
    assert("Landroid/content/SharedPreferences$Editor;"@.len() == 42);
    reveal_strlit("Landroid/util/Log;");
    assert("Landroid/util/Log;"@.len() == 18);
    reveal_strlit("Ljava/util/Collections;");
    assert("Ljava/util/Collections;"@.len() == 23);
    reveal_strlit("Ljava/io/PrintStream;");
    assert("Ljava/io/PrintStream;"@.len() == 21);
    reveal_strlit("Ljava/lang/Thread;");
    assert("Ljava/lang/Thread;"@.len() == 18);
    reveal_strlit("Landroid/os/Looper;");
    assert("Landroid/os/Looper;"@.len() == 19);
    reveal_strlit("Ljava/lang/System;");
    assert("Ljava/lang/System;"@.len() == 18);
    reveal_strlit("Ljava/util/Locale;");
    assert("Ljava/util/Locale;"@.len() == 18);
    reveal_strlit("Landroid/content/Intent;");
    assert("Landroid/content/Intent;"@.len() == 24);
    reveal_strlit("Landroid/os/Environment;");
    assert("Landroid/os/Environment;"@.len() == 24);
    reveal_strlit("Landroid/content/Context;");
    assert("Landroid/content/Context;"@.len() == 25);
    reveal_strlit("Landroid/app/");
    assert("Landroid/content/SharedPreferences$Editor;"@[9] == 'c' && "Landroid/app/"@[9] == 'a');
    lemma_does_not_start("Landroid/content/SharedPreferences$Editor;"@, "Landroid/app/"@, 9);
    reveal_strlit("Landroid/content/SharedPreferences;");
    assert("Landroid/content/SharedPreferences;"@.len() == 35);
    reveal_strlit("Landroid/content/res/Resources;");
    assert("Landroid/content/res/Resources;"@.len() == 31);
}

/// The class `android.graphics.Canvas` is answered for by its own methods.
pub proof fn canvases_are_answered_for(
    w: WorldView,
    method: Seq<char>,
    args: Seq<ValueView>,
    answers: Seq<AnswerView>,
)
    ensures
        dispatch::performed(w, "Landroid/graphics/Canvas;"@, method, args, answers) == graphics::canvas(w, method, args, answers),
{
    reveal_strlit("Landroid/graphics/Canvas;");
    assert("Landroid/graphics/Canvas;"@.len() == 25);
    reveal_strlit("Landroid/util/Log;");
    assert("Landroid/util/Log;"@.len() == 18);
    reveal_strlit("Ljava/util/Collections;");
    assert("Ljava/util/Collections;"@.len() == 23);
    reveal_strlit("Ljava/io/PrintStream;");
    assert("Ljava/io/PrintStream;"@.len() == 21);
    reveal_strlit("Ljava/lang/Thread;");
    assert("Ljava/lang/Thread;"@.len() == 18);
    reveal_strlit("Landroid/os/Looper;");
    assert("Landroid/os/Looper;"@.len() == 19);
    reveal_strlit("Ljava/lang/System;");
    assert("Ljava/lang/System;"@.len() == 18);
    reveal_strlit("Ljava/util/Locale;");
    assert("Ljava/util/Locale;"@.len() == 18);
    reveal_strlit("Landroid/content/Intent;");
    assert("Landroid/content/Intent;"@.len() == 24);
    reveal_strlit("Landroid/os/Environment;");
    assert("Landroid/os/Environment;"@.len() == 24);
    reveal_strlit("Landroid/content/Context;");
    assert("Landroid/graphics/Canvas;"@[9] == 'g' && "Landroid/content/Context;"@[9] == 'c');
    reveal_strlit("Landroid/app/");
    assert("Landroid/graphics/Canvas;"@[9] == 'g' && "Landroid/app/"@[9] == 'a');
    lemma_does_not_start("Landroid/graphics/Canvas;"@, "Landroid/app/"@, 9);
    reveal_strlit("Landroid/content/SharedPreferences;");
    assert("Landroid/content/SharedPreferences;"@.len() == 35);
    reveal_strlit("Landroid/content/res/Resources;");
    assert("Landroid/content/res/Resources;"@.len() == 31);
    reveal_strlit("Landroid/content/SharedPreferences$Editor;");
    assert("Landroid/content/SharedPreferences$Editor;"@.len() == 42);
}

/// The class `android.graphics.Paint` is answered for by its own methods.
pub proof fn paints_are_answered_for(
    w: WorldView,
    method: Seq<char>,
    args: Seq<ValueView>,
    answers: Seq<AnswerView>,
)
    ensures
        dispatch::performed(w, "Landroid/graphics/Paint;"@, method, args, answers) == graphics::paint(w, method, args),
{
    reveal_strlit("Landroid/graphics/Paint;");
    assert("Landroid/graphics/Paint;"@.len() == 24);
    reveal_strlit("Landroid/util/Log;");
    assert("Landroid/util/Log;"@.len() == 18);
    reveal_strlit("Ljava/util/Collections;");
    assert("Ljava/util/Collections;"@.len() == 23);
    reveal_strlit("Ljava/io/PrintStream;");
    assert("Ljava/io/PrintStream;"@.len() == 21);
    reveal_strlit("Ljava/lang/Thread;");
    assert("Ljava/lang/Thread;"@.len() == 18);
    reveal_strlit("Landroid/os/Looper;");
    assert("Landroid/os/Looper;"@.len() == 19);
    reveal_strlit("Ljava/lang/System;");
    assert("Ljava/lang/System;"@.len() == 18);
    reveal_strlit("Ljava/util/Locale;");
    assert("Ljava/util/Locale;"@.len() == 18);
    reveal_strlit("Landroid/content/Intent;");
    assert("Landroid/graphics/Paint;"@[9] == 'g' && "Landroid/content/Intent;"@[9] == 'c');
    reveal_strlit("Landroid/os/Environment;");
    assert("Landroid/graphics/Paint;"@[9] == 'g' && "Landroid/os/Environment;"@[9] == 'o');
    reveal_strlit("Landroid/content/Context;");
    assert("Landroid/content/Context;"@.len() == 25);
    reveal_strlit("Landroid/app/");
    assert("Landroid/graphics/Paint;"@[9] == 'g' && "Landroid/app/"@[9] == 'a');
    lemma_does_not_start("Landroid/graphics/Paint;"@, "Landroid/app/"@, 9);
    reveal_strlit("Landroid/content/SharedPreferences;");
    assert("Landroid/content/SharedPreferences;"@.len() == 35);
    reveal_strlit("Landroid/content/res/Resources;");
    assert("Landroid/content/res/Resources;"@.len() == 31);
    reveal_strlit("Landroid/content/SharedPreferences$Editor;");
    assert("Landroid/content/SharedPreferences$Editor;"@.len() == 42);
    reveal_strlit("Landroid/graphics/Canvas;");
    assert("Landroid/graphics/Canvas;"@.len() == 25);
    reveal_strlit("Landroid/graphics/Path;");
    assert("Landroid/graphics/Path;"@.len() == 23);
    reveal_strlit("Landroid/graphics/Matrix;");
    assert("Landroid/graphics/Matrix;"@.len() == 25);
    reveal_strlit("Landroid/view/animation/Animation;");
    assert("Landroid/view/animation/Animation;"@.len() == 34);
}

/// The class `android.graphics.Color` is answered for by its own methods.
pub proof fn colours_are_answered_for(
    w: WorldView,
    method: Seq<char>,
    args: Seq<ValueView>,
    answers: Seq<AnswerView>,
)
    ensures
        dispatch::performed(w, "Landroid/graphics/Color;"@, method, args, answers) == (w, graphics::mix_color(method, args)),
{
    reveal_strlit("Landroid/graphics/Color;");
    assert("Landroid/graphics/Color;"@.len() == 24);
    reveal_strlit("Landroid/util/Log;");
    assert("Landroid/util/Log;"@.len() == 18);
    reveal_strlit("Ljava/util/Collections;");
    assert("Ljava/util/Collections;"@.len() == 23);
    reveal_strlit("Ljava/io/PrintStream;");
    assert("Ljava/io/PrintStream;"@.len() == 21);
    reveal_strlit("Ljava/lang/Thread;");
    assert("Ljava/lang/Thread;"@.len() == 18);
    reveal_strlit("Landroid/os/Looper;");
    assert("Landroid/os/Looper;"@.len() == 19);
    reveal_strlit("Ljava/lang/System;");
    assert("Ljava/lang/System;"@.len() == 18);
    reveal_strlit("Ljava/util/Locale;");
    assert("Ljava/util/Locale;"@.len() == 18);
    reveal_strlit("Landroid/content/Intent;");
    assert("Landroid/graphics/Color;"@[9] == 'g' && "Landroid/content/Intent;"@[9] == 'c');
    reveal_strlit("Landroid/os/Environment;");
    assert("Landroid/graphics/Color;"@[9] == 'g' && "Landroid/os/Environment;"@[9] == 'o');
    reveal_strlit("Landroid/content/Context;");
    assert("Landroid/content/Context;"@.len() == 25);
    reveal_strlit("Landroid/app/");
    assert("Landroid/graphics/Color;"@[9] == 'g' && "Landroid/app/"@[9] == 'a');
    lemma_does_not_start("Landroid/graphics/Color;"@, "Landroid/app/"@, 9);
    reveal_strlit("Landroid/content/SharedPreferences;");
    assert("Landroid/content/SharedPreferences;"@.len() == 35);
    reveal_strlit("Landroid/content/res/Resources;");
    assert("Landroid/content/res/Resources;"@.len() == 31);
    reveal_strlit("Landroid/content/SharedPreferences$Editor;");
    assert("Landroid/content/SharedPreferences$Editor;"@.len() == 42);
    reveal_strlit("Landroid/graphics/Canvas;");
    assert("Landroid/graphics/Canvas;"@.len() == 25);
    reveal_strlit("Landroid/graphics/Path;");
    assert("Landroid/graphics/Path;"@.len() == 23);
    reveal_strlit("Landroid/graphics/Matrix;");
    assert("Landroid/graphics/Matrix;"@.len() == 25);
    reveal_strlit("Landroid/view/animation/Animation;");
    assert("Landroid/view/animation/Animation;"@.len() == 34);
    reveal_strlit("Landroid/graphics/Paint;");
    assert("Landroid/graphics/Color;"@[18] == 'C' && "Landroid/graphics/Paint;"@[18] == 'P');
}

/// The class `android.graphics.BitmapFactory` is answered for by its own methods.
pub proof fn bitmap_factories_are_answered_for(
    w: WorldView,
    method: Seq<char>,
    args: Seq<ValueView>,
    answers: Seq<AnswerView>,
)
    ensures
        dispatch::performed(w, "Landroid/graphics/BitmapFactory;"@, method, args, answers) == graphics::factory(w, method, args, answers),
{
    reveal_strlit("Landroid/graphics/BitmapFactory;");
    assert("Landroid/graphics/BitmapFactory;"@.len() == 32);
    reveal_strlit("Landroid/util/Log;");
    assert("Landroid/util/Log;"@.len() == 18);
    reveal_strlit("Ljava/util/Collections;");
    assert("Ljava/util/Collections;"@.len() == 23);
    reveal_strlit("Ljava/io/PrintStream;");
    assert("Ljava/io/PrintStream;"@.len() == 21);
    reveal_strlit("Ljava/lang/Thread;");
    assert("Ljava/lang/Thread;"@.len() == 18);
    reveal_strlit("Landroid/os/Looper;");
    assert("Landroid/os/Looper;"@.len() == 19);
    reveal_strlit("Ljava/lang/System;");
    assert("Ljava/lang/System;"@.len() == 18);
    reveal_strlit("Ljava/util/Locale;");
    assert("Ljava/util/Locale;"@.len() == 18);
    reveal_strlit("Landroid/content/Intent;");
    assert("Landroid/content/Intent;"@.len() == 24);
    reveal_strlit("Landroid/os/Environment;");
    assert("Landroid/os/Environment;"@.len() == 24);
    reveal_strlit("Landroid/content/Context;");
    assert("Landroid/content/Context;"@.len() == 25);
    reveal_strlit("Landroid/app/");
    assert("Landroid/graphics/BitmapFactory;"@[9] == 'g' && "Landroid/app/"@[9] == 'a');
    lemma_does_not_start("Landroid/graphics/BitmapFactory;"@, "Landroid/app/"@, 9);
    reveal_strlit("Landroid/content/SharedPreferences;");
    assert("Landroid/content/SharedPreferences;"@.len() == 35);
    reveal_strlit("Landroid/content/res/Resources;");
    assert("Landroid/content/res/Resources;"@.len() == 31);
    reveal_strlit("Landroid/content/SharedPreferences$Editor;");
    assert("Landroid/content/SharedPreferences$Editor;"@.len() == 42);
    reveal_strlit("Landroid/graphics/Canvas;");
    assert("Landroid/graphics/Canvas;"@.len() == 25);
    reveal_strlit("Landroid/graphics/Path;");
    assert("Landroid/graphics/Path;"@.len() == 23);
    reveal_strlit("Landroid/graphics/Matrix;");
    assert("Landroid/graphics/Matrix;"@.len() == 25);
    reveal_strlit("Landroid/view/animation/Animation;");
    assert("Landroid/view/animation/Animation;"@.len() == 34);
    reveal_strlit("Landroid/graphics/Paint;");
    assert("Landroid/graphics/Paint;"@.len() == 24);
    reveal_strlit("Landroid/graphics/Color;");
    assert("Landroid/graphics/Color;"@.len() == 24);
}

/// The class `android.graphics.Bitmap` is answered for by its own methods.
pub proof fn bitmaps_are_answered_for(
    w: WorldView,
    method: Seq<char>,
    args: Seq<ValueView>,
    answers: Seq<AnswerView>,
)
    ensures
        dispatch::performed(w, "Landroid/graphics/Bitmap;"@, method, args, answers) == graphics::bitmap(w, method, args),
{
    reveal_strlit("Landroid/graphics/Bitmap;");
    assert("Landroid/graphics/Bitmap;"@.len() == 25);
    reveal_strlit("Landroid/util/Log;");
    assert("Landroid/util/Log;"@.len() == 18);
    reveal_strlit("Ljava/util/Collections;");
    assert("Ljava/util/Collections;"@.len() == 23);
    reveal_strlit("Ljava/io/PrintStream;");
    assert("Ljava/io/PrintStream;"@.len() == 21);
    reveal_strlit("Ljava/lang/Thread;");
    assert("Ljava/lang/Thread;"@.len() == 18);
    reveal_strlit("Landroid/os/Looper;");
    assert("Landroid/os/Looper;"@.len() == 19);
    reveal_strlit("Ljava/lang/System;");
    assert("Ljava/lang/System;"@.len() == 18);
    reveal_strlit("Ljava/util/Locale;");
    assert("Ljava/util/Locale;"@.len() == 18);
    reveal_strlit("Landroid/content/Intent;");
    assert("Landroid/content/Intent;"@.len() == 24);
    reveal_strlit("Landroid/os/Environment;");
    assert("Landroid/os/Environment;"@.len() == 24);
    reveal_strlit("Landroid/content/Context;");
    assert("Landroid/graphics/Bitmap;"@[9] == 'g' && "Landroid/content/Context;"@[9] == 'c');
    reveal_strlit("Landroid/app/");
    assert("Landroid/graphics/Bitmap;"@[9] == 'g' && "Landroid/app/"@[9] == 'a');
    lemma_does_not_start("Landroid/graphics/Bitmap;"@, "Landroid/app/"@, 9);
    reveal_strlit("Landroid/content/SharedPreferences;");
    assert("Landroid/content/SharedPreferences;"@.len() == 35);
    reveal_strlit("Landroid/content/res/Resources;");
    assert("Landroid/content/res/Resources;"@.len() == 31);
    reveal_strlit("Landroid/content/SharedPreferences$Editor;");
    assert("Landroid/content/SharedPreferences$Editor;"@.len() == 42);
    reveal_strlit("Landroid/graphics/Canvas;");
    assert("Landroid/graphics/Bitmap;"@[18] == 'B' && "Landroid/graphics/Canvas;"@[18] == 'C');
    reveal_strlit("Landroid/graphics/Path;");
    assert("Landroid/graphics/Path;"@.len() == 23);
    reveal_strlit("Landroid/graphics/Matrix;");
    assert("Landroid/graphics/Bitmap;"@[18] == 'B' && "Landroid/graphics/Matrix;"@[18] == 'M');
    reveal_strlit("Landroid/view/animation/Animation;");
    assert("Landroid/view/animation/Animation;"@.len() == 34);
    reveal_strlit("Landroid/graphics/Paint;");
    assert("Landroid/graphics/Paint;"@.len() == 24);
    reveal_strlit("Landroid/graphics/Color;");
    assert("Landroid/graphics/Color;"@.len() == 24);
    reveal_strlit("Landroid/graphics/BitmapFactory;");
    assert("Landroid/graphics/BitmapFactory;"@.len() == 32);
}

/// The class `java.lang.Math` is answered for by its own methods.
pub proof fn mathematics_are_answered_for(
    w: WorldView,
    method: Seq<char>,
    args: Seq<ValueView>,
    answers: Seq<AnswerView>,
)
    ensures
        dispatch::performed(w, "Ljava/lang/Math;"@, method, args, answers) == (w, math::call(method, args, answers)),
{
    reveal_strlit("Ljava/lang/Math;");
    assert("Ljava/lang/Math;"@.len() == 16);
    reveal_strlit("Landroid/util/Log;");
    assert("Landroid/util/Log;"@.len() == 18);
    reveal_strlit("Ljava/util/Collections;");
    assert("Ljava/util/Collections;"@.len() == 23);
    reveal_strlit("Ljava/io/PrintStream;");
    assert("Ljava/io/PrintStream;"@.len() == 21);
    reveal_strlit("Ljava/lang/Thread;");
    assert("Ljava/lang/Thread;"@.len() == 18);
    reveal_strlit("Landroid/os/Looper;");
    assert("Landroid/os/Looper;"@.len() == 19);
    reveal_strlit("Ljava/lang/System;");
    assert("Ljava/lang/System;"@.len() == 18);
    reveal_strlit("Ljava/util/Locale;");
    assert("Ljava/util/Locale;"@.len() == 18);
    reveal_strlit("Landroid/content/Intent;");
    assert("Landroid/content/Intent;"@.len() == 24);
    reveal_strlit("Landroid/os/Environment;");
    assert("Landroid/os/Environment;"@.len() == 24);
    reveal_strlit("Landroid/content/Context;");
    assert("Landroid/content/Context;"@.len() == 25);
    reveal_strlit("Landroid/app/");
    assert("Ljava/lang/Math;"@[1] == 'j' && "Landroid/app/"@[1] == 'a');
    lemma_does_not_start("Ljava/lang/Math;"@, "Landroid/app/"@, 1);
    reveal_strlit("Landroid/content/SharedPreferences;");
    assert("Landroid/content/SharedPreferences;"@.len() == 35);
    reveal_strlit("Landroid/content/res/Resources;");
    assert("Landroid/content/res/Resources;"@.len() == 31);
    reveal_strlit("Landroid/content/SharedPreferences$Editor;");
    assert("Landroid/content/SharedPreferences$Editor;"@.len() == 42);
    reveal_strlit("Landroid/graphics/Canvas;");
    assert("Landroid/graphics/Canvas;"@.len() == 25);
    reveal_strlit("Landroid/graphics/Path;");
    assert("Landroid/graphics/Path;"@.len() == 23);
    reveal_strlit("Landroid/graphics/Matrix;");
    assert("Landroid/graphics/Matrix;"@.len() == 25);
    reveal_strlit("Landroid/view/animation/Animation;");
    assert("Landroid/view/animation/Animation;"@.len() == 34);
    reveal_strlit("Landroid/graphics/Paint;");
    assert("Landroid/graphics/Paint;"@.len() == 24);
    reveal_strlit("Landroid/graphics/Color;");
    assert("Landroid/graphics/Color;"@.len() == 24);
    reveal_strlit("Landroid/graphics/BitmapFactory;");
    assert("Landroid/graphics/BitmapFactory;"@.len() == 32);
    reveal_strlit("Landroid/graphics/Bitmap;");
    assert("Landroid/graphics/Bitmap;"@.len() == 25);
    reveal_strlit("Landroid/view/animation/AnimationUtils;");
    assert("Landroid/view/animation/AnimationUtils;"@.len() == 39);
}

/// The class `android.view.MotionEvent` is answered for by its own methods.
pub proof fn motion_events_are_answered_for(
    w: WorldView,
    method: Seq<char>,
    args: Seq<ValueView>,
    answers: Seq<AnswerView>,
)
    requires
        method != "<init>"@,
    ensures
        dispatch::performed(w, "Landroid/view/MotionEvent;"@, method, args, answers) == (w, objects::motion(w, method, args)),
{
    reveal_strlit("Landroid/view/MotionEvent;");
    assert("Landroid/view/MotionEvent;"@.len() == 26);
    reveal_strlit("Landroid/util/Log;");
    assert("Landroid/util/Log;"@.len() == 18);
    reveal_strlit("Ljava/util/Collections;");
    assert("Ljava/util/Collections;"@.len() == 23);
    reveal_strlit("Ljava/io/PrintStream;");
    assert("Ljava/io/PrintStream;"@.len() == 21);
    reveal_strlit("Ljava/lang/Thread;");
    assert("Ljava/lang/Thread;"@.len() == 18);
    reveal_strlit("Landroid/os/Looper;");
    assert("Landroid/os/Looper;"@.len() == 19);
    reveal_strlit("Ljava/lang/System;");
    assert("Ljava/lang/System;"@.len() == 18);
    reveal_strlit("Ljava/util/Locale;");
    assert("Ljava/util/Locale;"@.len() == 18);
    reveal_strlit("Landroid/content/Intent;");
    assert("Landroid/content/Intent;"@.len() == 24);
    reveal_strlit("Landroid/os/Environment;");
    assert("Landroid/os/Environment;"@.len() == 24);
    reveal_strlit("Landroid/content/Context;");
    assert("Landroid/content/Context;"@.len() == 25);
    reveal_strlit("Landroid/app/");
    assert("Landroid/view/MotionEvent;"@[9] == 'v' && "Landroid/app/"@[9] == 'a');
    lemma_does_not_start("Landroid/view/MotionEvent;"@, "Landroid/app/"@, 9);
    reveal_strlit("Landroid/content/SharedPreferences;");
    assert("Landroid/content/SharedPreferences;"@.len() == 35);
    reveal_strlit("Landroid/content/res/Resources;");
    assert("Landroid/content/res/Resources;"@.len() == 31);
    reveal_strlit("Landroid/content/SharedPreferences$Editor;");
    assert("Landroid/content/SharedPreferences$Editor;"@.len() == 42);
    reveal_strlit("Landroid/graphics/Canvas;");
    assert("Landroid/graphics/Canvas;"@.len() == 25);
    reveal_strlit("Landroid/graphics/Path;");
    assert("Landroid/graphics/Path;"@.len() == 23);
    reveal_strlit("Landroid/graphics/Matrix;");
    assert("Landroid/graphics/Matrix;"@.len() == 25);
    reveal_strlit("Landroid/view/animation/Animation;");
    assert("Landroid/view/animation/Animation;"@.len() == 34);
    reveal_strlit("Landroid/graphics/Paint;");
    assert("Landroid/graphics/Paint;"@.len() == 24);
    reveal_strlit("Landroid/graphics/Color;");
    assert("Landroid/graphics/Color;"@.len() == 24);
    reveal_strlit("Landroid/graphics/BitmapFactory;");
    assert("Landroid/graphics/BitmapFactory;"@.len() == 32);
    reveal_strlit("Landroid/graphics/Bitmap;");
    assert("Landroid/graphics/Bitmap;"@.len() == 25);
    reveal_strlit("Landroid/view/animation/AnimationUtils;");
    assert("Landroid/view/animation/AnimationUtils;"@.len() == 39);
    reveal_strlit("Ljava/lang/Math;");
    assert("Ljava/lang/Math;"@.len() == 16);
    reveal_strlit("Ljava/lang/Object;");
    assert("Ljava/lang/Object;"@.len() == 18);
}

/// The class `android.view.View` is answered for by its own methods.
pub proof fn views_are_answered_for(
    w: WorldView,
    method: Seq<char>,
    args: Seq<ValueView>,
    answers: Seq<AnswerView>,
)
    requires
        method != "<init>"@,
    ensures
        dispatch::performed(w, "Landroid/view/View;"@, method, args, answers) == objects::view_call(w, method, args, answers),
{
    reveal_strlit("Landroid/view/View;");
    assert("Landroid/view/View;"@.len() == 19);
    reveal_strlit("Landroid/util/Log;");
    assert("Landroid/util/Log;"@.len() == 18);
    reveal_strlit("Ljava/util/Collections;");
    assert("Ljava/util/Collections;"@.len() == 23);
    reveal_strlit("Ljava/io/PrintStream;");
    assert("Ljava/io/PrintStream;"@.len() == 21);
    reveal_strlit("Ljava/lang/Thread;");
    assert("Ljava/lang/Thread;"@.len() == 18);
    reveal_strlit("Landroid/os/Looper;");
    assert("Landroid/view/View;"@[9] == 'v' && "Landroid/os/Looper;"@[9] == 'o');
    reveal_strlit("Ljava/lang/System;");
    assert("Ljava/lang/System;"@.len() == 18);
    reveal_strlit("Ljava/util/Locale;");
    assert("Ljava/util/Locale;"@.len() == 18);
    reveal_strlit("Landroid/content/Intent;");
    assert("Landroid/content/Intent;"@.len() == 24);
    reveal_strlit("Landroid/os/Environment;");
    assert("Landroid/os/Environment;"@.len() == 24);
    reveal_strlit("Landroid/content/Context;");
    assert("Landroid/content/Context;"@.len() == 25);
    reveal_strlit("Landroid/app/");
    assert("Landroid/view/View;"@[9] == 'v' && "Landroid/app/"@[9] == 'a');
    lemma_does_not_start("Landroid/view/View;"@, "Landroid/app/"@, 9);
    reveal_strlit("Landroid/content/SharedPreferences;");
    assert("Landroid/content/SharedPreferences;"@.len() == 35);
    reveal_strlit("Landroid/content/res/Resources;");
    assert("Landroid/content/res/Resources;"@.len() == 31);
    reveal_strlit("Landroid/content/SharedPreferences$Editor;");
    assert("Landroid/content/SharedPreferences$Editor;"@.len() == 42);
    reveal_strlit("Landroid/graphics/Canvas;");
    assert("Landroid/graphics/Canvas;"@.len() == 25);
    reveal_strlit("Landroid/graphics/Path;");
    assert("Landroid/graphics/Path;"@.len() == 23);
    reveal_strlit("Landroid/graphics/Matrix;");
    assert("Landroid/graphics/Matrix;"@.len() == 25);
    reveal_strlit("Landroid/view/animation/Animation;");
    assert("Landroid/view/animation/Animation;"@.len() == 34);
    reveal_strlit("Landroid/graphics/Paint;");
    assert("Landroid/graphics/Paint;"@.len() == 24);
    reveal_strlit("Landroid/graphics/Color;");
    assert("Landroid/graphics/Color;"@.len() == 24);
    reveal_strlit("Landroid/graphics/BitmapFactory;");
    assert("Landroid/graphics/BitmapFactory;"@.len() == 32);
    reveal_strlit("Landroid/graphics/Bitmap;");
    assert("Landroid/graphics/Bitmap;"@.len() == 25);
    reveal_strlit("Landroid/view/animation/AnimationUtils;");
    assert("Landroid/view/animation/AnimationUtils;"@.len() == 39);
    reveal_strlit("Ljava/lang/Math;");
    assert("Ljava/lang/Math;"@.len() == 16);
    reveal_strlit("Ljava/lang/Object;");
    assert("Ljava/lang/Object;"@.len() == 18);
    reveal_strlit("Landroid/view/MotionEvent;");
    assert("Landroid/view/MotionEvent;"@.len() == 26);
    reveal_strlit("Landroid/view/");
    assert("Landroid/view/View;"@.subrange(0, "Landroid/view/"@.len() as int) =~= "Landroid/view/"@);
}

/// The class `android.widget.Button` is answered for by its own methods.
pub proof fn buttons_are_answered_for(
    w: WorldView,
    method: Seq<char>,
    args: Seq<ValueView>,
    answers: Seq<AnswerView>,
)
    requires
        method != "<init>"@,
    ensures
        dispatch::performed(w, "Landroid/widget/Button;"@, method, args, answers) == objects::view_call(w, method, args, answers),
{
    reveal_strlit("Landroid/widget/Button;");
    assert("Landroid/widget/Button;"@.len() == 23);
    reveal_strlit("Landroid/util/Log;");
    assert("Landroid/util/Log;"@.len() == 18);
    reveal_strlit("Ljava/util/Collections;");
    assert("Landroid/widget/Button;"@[1] == 'a' && "Ljava/util/Collections;"@[1] == 'j');
    reveal_strlit("Ljava/io/PrintStream;");
    assert("Ljava/io/PrintStream;"@.len() == 21);
    reveal_strlit("Ljava/lang/Thread;");
    assert("Ljava/lang/Thread;"@.len() == 18);
    reveal_strlit("Landroid/os/Looper;");
    assert("Landroid/os/Looper;"@.len() == 19);
    reveal_strlit("Ljava/lang/System;");
    assert("Ljava/lang/System;"@.len() == 18);
    reveal_strlit("Ljava/util/Locale;");
    assert("Ljava/util/Locale;"@.len() == 18);
    reveal_strlit("Landroid/content/Intent;");
    assert("Landroid/content/Intent;"@.len() == 24);
    reveal_strlit("Landroid/os/Environment;");
    assert("Landroid/os/Environment;"@.len() == 24);
    reveal_strlit("Landroid/content/Context;");
    assert("Landroid/content/Context;"@.len() == 25);
    reveal_strlit("Landroid/app/");
    assert("Landroid/widget/Button;"@[9] == 'w' && "Landroid/app/"@[9] == 'a');
    lemma_does_not_start("Landroid/widget/Button;"@, "Landroid/app/"@, 9);
    reveal_strlit("Landroid/content/SharedPreferences;");
    assert("Landroid/content/SharedPreferences;"@.len() == 35);
    reveal_strlit("Landroid/content/res/Resources;");
    assert("Landroid/content/res/Resources;"@.len() == 31);
    reveal_strlit("Landroid/content/SharedPreferences$Editor;");
    assert("Landroid/content/SharedPreferences$Editor;"@.len() == 42);
    reveal_strlit("Landroid/graphics/Canvas;");
    assert("Landroid/graphics/Canvas;"@.len() == 25);
    reveal_strlit("Landroid/graphics/Path;");
    assert("Landroid/widget/Button;"@[9] == 'w' && "Landroid/graphics/Path;"@[9] == 'g');
    reveal_strlit("Landroid/graphics/Matrix;");
    assert("Landroid/graphics/Matrix;"@.len() == 25);
    reveal_strlit("Landroid/view/animation/Animation;");
    assert("Landroid/view/animation/Animation;"@.len() == 34);
    reveal_strlit("Landroid/graphics/Paint;");
    assert("Landroid/graphics/Paint;"@.len() == 24);
    reveal_strlit("Landroid/graphics/Color;");
    assert("Landroid/graphics/Color;"@.len() == 24);
    reveal_strlit("Landroid/graphics/BitmapFactory;");
    assert("Landroid/graphics/BitmapFactory;"@.len() == 32);
    reveal_strlit("Landroid/graphics/Bitmap;");
    assert("Landroid/graphics/Bitmap;"@.len() == 25);
    reveal_strlit("Landroid/view/animation/AnimationUtils;");
    assert("Landroid/view/animation/AnimationUtils;"@.len() == 39);
    reveal_strlit("Ljava/lang/Math;");
    assert("Ljava/lang/Math;"@.len() == 16);
    reveal_strlit("Ljava/lang/Object;");
    assert("Ljava/lang/Object;"@.len() == 18);
    reveal_strlit("Landroid/view/MotionEvent;");
    assert("Landroid/view/MotionEvent;"@.len() == 26);
    reveal_strlit("Landroid/widget/");
    assert("Landroid/widget/Button;"@.subrange(0, "Landroid/widget/"@.len() as int) =~= "Landroid/widget/"@);
}

/// The class `android.media.MediaPlayer` is answered for by its own methods.
pub proof fn media_players_are_answered_for(
    w: WorldView,
    method: Seq<char>,
    args: Seq<ValueView>,
    answers: Seq<AnswerView>,
)
    requires
        method != "<init>"@,
    ensures
        dispatch::performed(w, "Landroid/media/MediaPlayer;"@, method, args, answers) == objects::media(w, method, args),
{
    reveal_strlit("Landroid/media/MediaPlayer;");
    assert("Landroid/media/MediaPlayer;"@.len() == 27);
    reveal_strlit("Landroid/util/Log;");
    assert("Landroid/util/Log;"@.len() == 18);
    reveal_strlit("Ljava/util/Collections;");
    assert("Ljava/util/Collections;"@.len() == 23);
    reveal_strlit("Ljava/io/PrintStream;");
    assert("Ljava/io/PrintStream;"@.len() == 21);
    reveal_strlit("Ljava/lang/Thread;");
    assert("Ljava/lang/Thread;"@.len() == 18);
    reveal_strlit("Landroid/os/Looper;");
    assert("Landroid/os/Looper;"@.len() == 19);
    reveal_strlit("Ljava/lang/System;");
    assert("Ljava/lang/System;"@.len() == 18);
    reveal_strlit("Ljava/util/Locale;");
    assert("Ljava/util/Locale;"@.len() == 18);
    reveal_strlit("Landroid/content/Intent;");
    assert("Landroid/content/Intent;"@.len() == 24);
    reveal_strlit("Landroid/os/Environment;");
    assert("Landroid/os/Environment;"@.len() == 24);
    reveal_strlit("Landroid/content/Context;");
    assert("Landroid/content/Context;"@.len() == 25);
    reveal_strlit("Landroid/app/");
    assert("Landroid/media/MediaPlayer;"@[9] == 'm' && "Landroid/app/"@[9] == 'a');
    lemma_does_not_start("Landroid/media/MediaPlayer;"@, "Landroid/app/"@, 9);
    reveal_strlit("Landroid/content/SharedPreferences;");
    assert("Landroid/content/SharedPreferences;"@.len() == 35);
    reveal_strlit("Landroid/content/res/Resources;");
    assert("Landroid/content/res/Resources;"@.len() == 31);
    reveal_strlit("Landroid/content/SharedPreferences$Editor;");
    assert("Landroid/content/SharedPreferences$Editor;"@.len() == 42);
    reveal_strlit("Landroid/graphics/Canvas;");
    assert("Landroid/graphics/Canvas;"@.len() == 25);
    reveal_strlit("Landroid/graphics/Path;");
    assert("Landroid/graphics/Path;"@.len() == 23);
    reveal_strlit("Landroid/graphics/Matrix;");
    assert("Landroid/graphics/Matrix;"@.len() == 25);
    reveal_strlit("Landroid/view/animation/Animation;");
    assert("Landroid/view/animation/Animation;"@.len() == 34);
    reveal_strlit("Landroid/graphics/Paint;");
    assert("Landroid/graphics/Paint;"@.len() == 24);
    reveal_strlit("Landroid/graphics/Color;");
    assert("Landroid/graphics/Color;"@.len() == 24);
    reveal_strlit("Landroid/graphics/BitmapFactory;");
    assert("Landroid/graphics/BitmapFactory;"@.len() == 32);
    reveal_strlit("Landroid/graphics/Bitmap;");
    assert("Landroid/graphics/Bitmap;"@.len() == 25);
    reveal_strlit("Landroid/view/animation/AnimationUtils;");
    assert("Landroid/view/animation/AnimationUtils;"@.len() == 39);
    reveal_strlit("Ljava/lang/Math;");
    assert("Ljava/lang/Math;"@.len() == 16);
    reveal_strlit("Ljava/lang/Object;");
    assert("Ljava/lang/Object;"@.len() == 18);
    reveal_strlit("Landroid/view/MotionEvent;");
    assert("Landroid/view/MotionEvent;"@.len() == 26);
    reveal_strlit("Landroid/view/");
    assert("Landroid/media/MediaPlayer;"@[9] == 'm' && "Landroid/view/"@[9] == 'v');
    lemma_does_not_start("Landroid/media/MediaPlayer;"@, "Landroid/view/"@, 9);
    reveal_strlit("Landroid/widget/");
    assert("Landroid/media/MediaPlayer;"@[9] == 'm' && "Landroid/widget/"@[9] == 'w');
    lemma_does_not_start("Landroid/media/MediaPlayer;"@, "Landroid/widget/"@, 9);
    reveal_strlit("Landroid/opengl/GLSurfaceView;");
    assert("Landroid/opengl/GLSurfaceView;"@.len() == 30);
    reveal_strlit("Landroid/hardware/SensorManager;");
    assert("Landroid/hardware/SensorManager;"@.len() == 32);
    reveal_strlit("Landroid/media/SoundPool;");
    assert("Landroid/media/SoundPool;"@.len() == 25);
}

/// The class `java.io.File` is answered for by its own methods.
pub proof fn files_are_answered_for(
    w: WorldView,
    method: Seq<char>,
    args: Seq<ValueView>,
    answers: Seq<AnswerView>,
)
    requires
        method != "<init>"@,
    ensures
        dispatch::performed(w, "Ljava/io/File;"@, method, args, answers) == objects::file(w, method, args),
{
    reveal_strlit("Ljava/io/File;");
    assert("Ljava/io/File;"@.len() == 14);
    reveal_strlit("Landroid/util/Log;");
    assert("Landroid/util/Log;"@.len() == 18);
    reveal_strlit("Ljava/util/Collections;");
    assert("Ljava/util/Collections;"@.len() == 23);
    reveal_strlit("Ljava/io/PrintStream;");
    assert("Ljava/io/PrintStream;"@.len() == 21);
    reveal_strlit("Ljava/lang/Thread;");
    assert("Ljava/lang/Thread;"@.len() == 18);
    reveal_strlit("Landroid/os/Looper;");
    assert("Landroid/os/Looper;"@.len() == 19);
    reveal_strlit("Ljava/lang/System;");
    assert("Ljava/lang/System;"@.len() == 18);
    reveal_strlit("Ljava/util/Locale;");
    assert("Ljava/util/Locale;"@.len() == 18);
    reveal_strlit("Landroid/content/Intent;");
    assert("Landroid/content/Intent;"@.len() == 24);
    reveal_strlit("Landroid/os/Environment;");
    assert("Landroid/os/Environment;"@.len() == 24);
    reveal_strlit("Landroid/content/Context;");
    assert("Landroid/content/Context;"@.len() == 25);
    reveal_strlit("Landroid/app/");
    assert("Ljava/io/File;"@[1] == 'j' && "Landroid/app/"@[1] == 'a');
    lemma_does_not_start("Ljava/io/File;"@, "Landroid/app/"@, 1);
    reveal_strlit("Landroid/content/SharedPreferences;");
    assert("Landroid/content/SharedPreferences;"@.len() == 35);
    reveal_strlit("Landroid/content/res/Resources;");
    assert("Landroid/content/res/Resources;"@.len() == 31);
    reveal_strlit("Landroid/content/SharedPreferences$Editor;");
    assert("Landroid/content/SharedPreferences$Editor;"@.len() == 42);
    reveal_strlit("Landroid/graphics/Canvas;");
    assert("Landroid/graphics/Canvas;"@.len() == 25);
    reveal_strlit("Landroid/graphics/Path;");
    assert("Landroid/graphics/Path;"@.len() == 23);
    reveal_strlit("Landroid/graphics/Matrix;");
    assert("Landroid/graphics/Matrix;"@.len() == 25);
    reveal_strlit("Landroid/view/animation/Animation;");
    assert("Landroid/view/animation/Animation;"@.len() == 34);
    reveal_strlit("Landroid/graphics/Paint;");
    assert("Landroid/graphics/Paint;"@.len() == 24);
    reveal_strlit("Landroid/graphics/Color;");
    assert("Landroid/graphics/Color;"@.len() == 24);
    reveal_strlit("Landroid/graphics/BitmapFactory;");
    assert("Landroid/graphics/BitmapFactory;"@.len() == 32);
    reveal_strlit("Landroid/graphics/Bitmap;");
    assert("Landroid/graphics/Bitmap;"@.len() == 25);
    reveal_strlit("Landroid/view/animation/AnimationUtils;");
    assert("Landroid/view/animation/AnimationUtils;"@.len() == 39);
    reveal_strlit("Ljava/lang/Math;");
    assert("Ljava/lang/Math;"@.len() == 16);
    reveal_strlit("Ljava/lang/Object;");
    assert("Ljava/lang/Object;"@.len() == 18);
    reveal_strlit("Landroid/view/MotionEvent;");
    assert("Landroid/view/MotionEvent;"@.len() == 26);
    reveal_strlit("Landroid/view/");
    assert("Ljava/io/File;"@[1] == 'j' && "Landroid/view/"@[1] == 'a');
    lemma_does_not_start("Ljava/io/File;"@, "Landroid/view/"@, 1);
    reveal_strlit("Landroid/widget/");
    assert("Ljava/io/File;"@[1] == 'j' && "Landroid/widget/"@[1] == 'a');
    lemma_does_not_start("Ljava/io/File;"@, "Landroid/widget/"@, 1);
    reveal_strlit("Landroid/opengl/GLSurfaceView;");
    assert("Landroid/opengl/GLSurfaceView;"@.len() == 30);
    reveal_strlit("Landroid/hardware/SensorManager;");
    assert("Landroid/hardware/SensorManager;"@.len() == 32);
    reveal_strlit("Landroid/media/SoundPool;");
    assert("Landroid/media/SoundPool;"@.len() == 25);
    reveal_strlit("Landroid/media/MediaPlayer;");
    assert("Landroid/media/MediaPlayer;"@.len() == 27);
}

/// The class `java.lang.Integer` is answered for by its own methods.
pub proof fn boxed_integers_are_answered_for(
    w: WorldView,
    method: Seq<char>,
    args: Seq<ValueView>,
    answers: Seq<AnswerView>,
)
    requires
        method != "<init>"@,
        strings::box_method(method),
    ensures
        dispatch::performed(w, "Ljava/lang/Integer;"@, method, args, answers) == strings::boxes(w, method, args, answers),
{
    reveal_strlit("Ljava/lang/Integer;");
    assert("Ljava/lang/Integer;"@.len() == 19);
    reveal_strlit("Landroid/util/Log;");
    assert("Landroid/util/Log;"@.len() == 18);
    reveal_strlit("Ljava/util/Collections;");
    assert("Ljava/util/Collections;"@.len() == 23);
    reveal_strlit("Ljava/io/PrintStream;");
    assert("Ljava/io/PrintStream;"@.len() == 21);
    reveal_strlit("Ljava/lang/Thread;");
    assert("Ljava/lang/Thread;"@.len() == 18);
    reveal_strlit("Landroid/os/Looper;");
    assert("Ljava/lang/Integer;"@[1] == 'j' && "Landroid/os/Looper;"@[1] == 'a');
    reveal_strlit("Ljava/lang/System;");
    assert("Ljava/lang/System;"@.len() == 18);
    reveal_strlit("Ljava/util/Locale;");
    assert("Ljava/util/Locale;"@.len() == 18);
    reveal_strlit("Landroid/content/Intent;");
    assert("Landroid/content/Intent;"@.len() == 24);
    reveal_strlit("Landroid/os/Environment;");
    assert("Landroid/os/Environment;"@.len() == 24);
    reveal_strlit("Landroid/content/Context;");
    assert("Landroid/content/Context;"@.len() == 25);
    reveal_strlit("Landroid/app/");
    assert("Ljava/lang/Integer;"@[1] == 'j' && "Landroid/app/"@[1] == 'a');
    lemma_does_not_start("Ljava/lang/Integer;"@, "Landroid/app/"@, 1);
    reveal_strlit("Landroid/content/SharedPreferences;");
    assert("Landroid/content/SharedPreferences;"@.len() == 35);
    reveal_strlit("Landroid/content/res/Resources;");
    assert("Landroid/content/res/Resources;"@.len() == 31);
    reveal_strlit("Landroid/content/SharedPreferences$Editor;");
    assert("Landroid/content/SharedPreferences$Editor;"@.len() == 42);
    reveal_strlit("Landroid/graphics/Canvas;");
    assert("Landroid/graphics/Canvas;"@.len() == 25);
    reveal_strlit("Landroid/graphics/Path;");
    assert("Landroid/graphics/Path;"@.len() == 23);
    reveal_strlit("Landroid/graphics/Matrix;");
    assert("Landroid/graphics/Matrix;"@.len() == 25);
    reveal_strlit("Landroid/view/animation/Animation;");
    assert("Landroid/view/animation/Animation;"@.len() == 34);
    reveal_strlit("Landroid/graphics/Paint;");
    assert("Landroid/graphics/Paint;"@.len() == 24);
    reveal_strlit("Landroid/graphics/Color;");
    assert("Landroid/graphics/Color;"@.len() == 24);
    reveal_strlit("Landroid/graphics/BitmapFactory;");
    assert("Landroid/graphics/BitmapFactory;"@.len() == 32);
    reveal_strlit("Landroid/graphics/Bitmap;");
    assert("Landroid/graphics/Bitmap;"@.len() == 25);
    reveal_strlit("Landroid/view/animation/AnimationUtils;");
    assert("Landroid/view/animation/AnimationUtils;"@.len() == 39);
    reveal_strlit("Ljava/lang/Math;");
    assert("Ljava/lang/Math;"@.len() == 16);
    reveal_strlit("Ljava/lang/Object;");
    assert("Ljava/lang/Object;"@.len() == 18);
    reveal_strlit("Landroid/view/MotionEvent;");
    assert("Landroid/view/MotionEvent;"@.len() == 26);
    reveal_strlit("Landroid/view/");
    assert("Ljava/lang/Integer;"@[1] == 'j' && "Landroid/view/"@[1] == 'a');
    lemma_does_not_start("Ljava/lang/Integer;"@, "Landroid/view/"@, 1);
    reveal_strlit("Landroid/widget/");
    assert("Ljava/lang/Integer;"@[1] == 'j' && "Landroid/widget/"@[1] == 'a');
    lemma_does_not_start("Ljava/lang/Integer;"@, "Landroid/widget/"@, 1);
    reveal_strlit("Landroid/opengl/GLSurfaceView;");
    assert("Landroid/opengl/GLSurfaceView;"@.len() == 30);
    reveal_strlit("Landroid/hardware/SensorManager;");
    assert("Landroid/hardware/SensorManager;"@.len() == 32);
    reveal_strlit("Landroid/media/SoundPool;");
    assert("Landroid/media/SoundPool;"@.len() == 25);
    reveal_strlit("Landroid/media/MediaPlayer;");
    assert("Landroid/media/MediaPlayer;"@.len() == 27);
    reveal_strlit("Ljava/io/File;");
    assert("Ljava/io/File;"@.len() == 14);
    reveal_strlit("Ljava/lang/reflect/Array;");
    assert("Ljava/lang/reflect/Array;"@.len() == 25);
}

/// The class `java.lang.Float` is answered for by its own methods.
pub proof fn boxed_singles_are_answered_for(
    w: WorldView,
    method: Seq<char>,
    args: Seq<ValueView>,
    answers: Seq<AnswerView>,
)
    requires
        method != "<init>"@,
        strings::box_method(method),
    ensures
        dispatch::performed(w, "Ljava/lang/Float;"@, method, args, answers) == strings::boxes(w, method, args, answers),
{
    reveal_strlit("Ljava/lang/Float;");
    assert("Ljava/lang/Float;"@.len() == 17);
    reveal_strlit("Landroid/util/Log;");
    assert("Landroid/util/Log;"@.len() == 18);
    reveal_strlit("Ljava/util/Collections;");
    assert("Ljava/util/Collections;"@.len() == 23);
    reveal_strlit("Ljava/io/PrintStream;");
    assert("Ljava/io/PrintStream;"@.len() == 21);
    reveal_strlit("Ljava/lang/Thread;");
    assert("Ljava/lang/Thread;"@.len() == 18);
    reveal_strlit("Landroid/os/Looper;");
    assert("Landroid/os/Looper;"@.len() == 19);
    reveal_strlit("Ljava/lang/System;");
    assert("Ljava/lang/System;"@.len() == 18);
    reveal_strlit("Ljava/util/Locale;");
    assert("Ljava/util/Locale;"@.len() == 18);
    reveal_strlit("Landroid/content/Intent;");
    assert("Landroid/content/Intent;"@.len() == 24);
    reveal_strlit("Landroid/os/Environment;");
    assert("Landroid/os/Environment;"@.len() == 24);
    reveal_strlit("Landroid/content/Context;");
    assert("Landroid/content/Context;"@.len() == 25);
    reveal_strlit("Landroid/app/");
    assert("Ljava/lang/Float;"@[1] == 'j' && "Landroid/app/"@[1] == 'a');
    lemma_does_not_start("Ljava/lang/Float;"@, "Landroid/app/"@, 1);
    reveal_strlit("Landroid/content/SharedPreferences;");
    assert("Landroid/content/SharedPreferences;"@.len() == 35);
    reveal_strlit("Landroid/content/res/Resources;");
    assert("Landroid/content/res/Resources;"@.len() == 31);
    reveal_strlit("Landroid/content/SharedPreferences$Editor;");
    assert("Landroid/content/SharedPreferences$Editor;"@.len() == 42);
    reveal_strlit("Landroid/graphics/Canvas;");
    assert("Landroid/graphics/Canvas;"@.len() == 25);
    reveal_strlit("Landroid/graphics/Path;");
    assert("Landroid/graphics/Path;"@.len() == 23);
    reveal_strlit("Landroid/graphics/Matrix;");
    assert("Landroid/graphics/Matrix;"@.len() == 25);
    reveal_strlit("Landroid/view/animation/Animation;");
    assert("Landroid/view/animation/Animation;"@.len() == 34);
    reveal_strlit("Landroid/graphics/Paint;");
    assert("Landroid/graphics/Paint;"@.len() == 24);
    reveal_strlit("Landroid/graphics/Color;");
    assert("Landroid/graphics/Color;"@.len() == 24);
    reveal_strlit("Landroid/graphics/BitmapFactory;");
    assert("Landroid/graphics/BitmapFactory;"@.len() == 32);
    reveal_strlit("Landroid/graphics/Bitmap;");
    assert("Landroid/graphics/Bitmap;"@.len() == 25);
    reveal_strlit("Landroid/view/animation/AnimationUtils;");
    assert("Landroid/view/animation/AnimationUtils;"@.len() == 39);
    reveal_strlit("Ljava/lang/Math;");
    assert("Ljava/lang/Math;"@.len() == 16);
    reveal_strlit("Ljava/lang/Object;");
    assert("Ljava/lang/Object;"@.len() == 18);
    reveal_strlit("Landroid/view/MotionEvent;");
    assert("Landroid/view/MotionEvent;"@.len() == 26);
    reveal_strlit("Landroid/view/");
    assert("Ljava/lang/Float;"@[1] == 'j' && "Landroid/view/"@[1] == 'a');
    lemma_does_not_start("Ljava/lang/Float;"@, "Landroid/view/"@, 1);
    reveal_strlit("Landroid/widget/");
    assert("Ljava/lang/Float;"@[1] == 'j' && "Landroid/widget/"@[1] == 'a');
    lemma_does_not_start("Ljava/lang/Float;"@, "Landroid/widget/"@, 1);
    reveal_strlit("Landroid/opengl/GLSurfaceView;");
    assert("Landroid/opengl/GLSurfaceView;"@.len() == 30);
    reveal_strlit("Landroid/hardware/SensorManager;");
    assert("Landroid/hardware/SensorManager;"@.len() == 32);
    reveal_strlit("Landroid/media/SoundPool;");
    assert("Landroid/media/SoundPool;"@.len() == 25);
    reveal_strlit("Landroid/media/MediaPlayer;");
    assert("Landroid/media/MediaPlayer;"@.len() == 27);
    reveal_strlit("Ljava/io/File;");
    assert("Ljava/io/File;"@.len() == 14);
    reveal_strlit("Ljava/lang/reflect/Array;");
    assert("Ljava/lang/reflect/Array;"@.len() == 25);
    reveal_strlit("Ljava/lang/Integer;");
    assert("Ljava/lang/Integer;"@.len() == 19);
    reveal_strlit("Ljava/lang/Long;");
    assert("Ljava/lang/Long;"@.len() == 16);
}

/// The class `java.lang.String` is answered for by its own methods.
pub proof fn strings_are_answered_for(
    w: WorldView,
    method: Seq<char>,
    args: Seq<ValueView>,
    answers: Seq<AnswerView>,
)
    requires
        method != "<init>"@,
        strings::string_method(method),
    ensures
        dispatch::performed(w, "Ljava/lang/String;"@, method, args, answers) == strings::string(w, method, args, answers),
{
    reveal_strlit("Ljava/lang/String;");
    assert("Ljava/lang/String;"@.len() == 18);
    reveal_strlit("Landroid/util/Log;");
    assert("Ljava/lang/String;"@[1] == 'j' && "Landroid/util/Log;"@[1] == 'a');
    reveal_strlit("Ljava/util/Collections;");
    assert("Ljava/util/Collections;"@.len() == 23);
    reveal_strlit("Ljava/io/PrintStream;");
    assert("Ljava/io/PrintStream;"@.len() == 21);
    reveal_strlit("Ljava/lang/Thread;");
    assert("Ljava/lang/String;"@[11] == 'S' && "Ljava/lang/Thread;"@[11] == 'T');
    reveal_strlit("Landroid/os/Looper;");
    assert("Landroid/os/Looper;"@.len() == 19);
    reveal_strlit("Ljava/lang/System;");
    assert("Ljava/lang/String;"@[12] == 't' && "Ljava/lang/System;"@[12] == 'y');
    reveal_strlit("Ljava/util/Locale;");
    assert("Ljava/lang/String;"@[6] == 'l' && "Ljava/util/Locale;"@[6] == 'u');
    reveal_strlit("Landroid/content/Intent;");
    assert("Landroid/content/Intent;"@.len() == 24);
    reveal_strlit("Landroid/os/Environment;");
    assert("Landroid/os/Environment;"@.len() == 24);
    reveal_strlit("Landroid/content/Context;");
    assert("Landroid/content/Context;"@.len() == 25);
    reveal_strlit("Landroid/app/");
    assert("Ljava/lang/String;"@[1] == 'j' && "Landroid/app/"@[1] == 'a');
    lemma_does_not_start("Ljava/lang/String;"@, "Landroid/app/"@, 1);
    reveal_strlit("Landroid/content/SharedPreferences;");
    assert("Landroid/content/SharedPreferences;"@.len() == 35);
    reveal_strlit("Landroid/content/res/Resources;");
    assert("Landroid/content/res/Resources;"@.len() == 31);
    reveal_strlit("Landroid/content/SharedPreferences$Editor;");
    assert("Landroid/content/SharedPreferences$Editor;"@.len() == 42);
    reveal_strlit("Landroid/graphics/Canvas;");
    assert("Landroid/graphics/Canvas;"@.len() == 25);
    reveal_strlit("Landroid/graphics/Path;");
    assert("Landroid/graphics/Path;"@.len() == 23);
    reveal_strlit("Landroid/graphics/Matrix;");
    assert("Landroid/graphics/Matrix;"@.len() == 25);
    reveal_strlit("Landroid/view/animation/Animation;");
    assert("Landroid/view/animation/Animation;"@.len() == 34);
    reveal_strlit("Landroid/graphics/Paint;");
    assert("Landroid/graphics/Paint;"@.len() == 24);
    reveal_strlit("Landroid/graphics/Color;");
    assert("Landroid/graphics/Color;"@.len() == 24);
    reveal_strlit("Landroid/graphics/BitmapFactory;");
    assert("Landroid/graphics/BitmapFactory;"@.len() == 32);
    reveal_strlit("Landroid/graphics/Bitmap;");
    assert("Landroid/graphics/Bitmap;"@.len() == 25);
    reveal_strlit("Landroid/view/animation/AnimationUtils;");
    assert("Landroid/view/animation/AnimationUtils;"@.len() == 39);
    reveal_strlit("Ljava/lang/Math;");
    assert("Ljava/lang/Math;"@.len() == 16);
    reveal_strlit("Ljava/lang/Object;");
    assert("Ljava/lang/String;"@[11] == 'S' && "Ljava/lang/Object;"@[11] == 'O');
    reveal_strlit("Landroid/view/MotionEvent;");
    assert("Landroid/view/MotionEvent;"@.len() == 26);
    reveal_strlit("Landroid/view/");
    assert("Ljava/lang/String;"@[1] == 'j' && "Landroid/view/"@[1] == 'a');
    lemma_does_not_start("Ljava/lang/String;"@, "Landroid/view/"@, 1);
    reveal_strlit("Landroid/widget/");
    assert("Ljava/lang/String;"@[1] == 'j' && "Landroid/widget/"@[1] == 'a');
    lemma_does_not_start("Ljava/lang/String;"@, "Landroid/widget/"@, 1);
    reveal_strlit("Landroid/opengl/GLSurfaceView;");
    assert("Landroid/opengl/GLSurfaceView;"@.len() == 30);
    reveal_strlit("Landroid/hardware/SensorManager;");
    assert("Landroid/hardware/SensorManager;"@.len() == 32);
    reveal_strlit("Landroid/media/SoundPool;");
    assert("Landroid/media/SoundPool;"@.len() == 25);
    reveal_strlit("Landroid/media/MediaPlayer;");
    assert("Landroid/media/MediaPlayer;"@.len() == 27);
    reveal_strlit("Ljava/io/File;");
    assert("Ljava/io/File;"@.len() == 14);
    reveal_strlit("Ljava/lang/reflect/Array;");
    assert("Ljava/lang/reflect/Array;"@.len() == 25);
    reveal_strlit("Ljava/lang/Integer;");
    assert("Ljava/lang/Integer;"@.len() == 19);
    reveal_strlit("Ljava/lang/Long;");
    assert("Ljava/lang/Long;"@.len() == 16);
    reveal_strlit("Ljava/lang/Float;");
    assert("Ljava/lang/Float;"@.len() == 17);
    reveal_strlit("Ljava/lang/Double;");
    assert("Ljava/lang/String;"@[11] == 'S' && "Ljava/lang/Double;"@[11] == 'D');
    reveal_strlit("Ljava/lang/Boolean;");
    assert("Ljava/lang/Boolean;"@.len() == 19);
}

/// The class `java.util.ArrayList` is answered for by its own methods.
pub proof fn array_lists_are_answered_for(
    w: WorldView,
    method: Seq<char>,
    args: Seq<ValueView>,
    answers: Seq<AnswerView>,
)
    requires
        method != "<init>"@,
    ensures
        dispatch::performed(w, "Ljava/util/ArrayList;"@, method, args, answers) == lists::list(w, method, args),
{
    reveal_strlit("Ljava/util/ArrayList;");
    assert("Ljava/util/ArrayList;"@.len() == 21);
    reveal_strlit("Landroid/util/Log;");
    assert("Landroid/util/Log;"@.len() == 18);
    reveal_strlit("Ljava/util/Collections;");
    assert("Ljava/util/Collections;"@.len() == 23);
    reveal_strlit("Ljava/io/PrintStream;");
    assert("Ljava/util/ArrayList;"@[6] == 'u' && "Ljava/io/PrintStream;"@[6] == 'i');
    reveal_strlit("Ljava/lang/Thread;");
    assert("Ljava/lang/Thread;"@.len() == 18);
    reveal_strlit("Landroid/os/Looper;");
    assert("Landroid/os/Looper;"@.len() == 19);
    reveal_strlit("Ljava/lang/System;");
    assert("Ljava/lang/System;"@.len() == 18);
    reveal_strlit("Ljava/util/Locale;");
    assert("Ljava/util/Locale;"@.len() == 18);
    reveal_strlit("Landroid/content/Intent;");
    assert("Landroid/content/Intent;"@.len() == 24);
    reveal_strlit("Landroid/os/Environment;");
    assert("Landroid/os/Environment;"@.len() == 24);
    reveal_strlit("Landroid/content/Context;");
    assert("Landroid/content/Context;"@.len() == 25);
    reveal_strlit("Landroid/app/");
    assert("Ljava/util/ArrayList;"@[1] == 'j' && "Landroid/app/"@[1] == 'a');
    lemma_does_not_start("Ljava/util/ArrayList;"@, "Landroid/app/"@, 1);
    reveal_strlit("Landroid/content/SharedPreferences;");
    assert("Landroid/content/SharedPreferences;"@.len() == 35);
    reveal_strlit("Landroid/content/res/Resources;");
    assert("Landroid/content/res/Resources;"@.len() == 31);
    reveal_strlit("Landroid/content/SharedPreferences$Editor;");
    assert("Landroid/content/SharedPreferences$Editor;"@.len() == 42);
    reveal_strlit("Landroid/graphics/Canvas;");
    assert("Landroid/graphics/Canvas;"@.len() == 25);
    reveal_strlit("Landroid/graphics/Path;");
    assert("Landroid/graphics/Path;"@.len() == 23);
    reveal_strlit("Landroid/graphics/Matrix;");
    assert("Landroid/graphics/Matrix;"@.len() == 25);
    reveal_strlit("Landroid/view/animation/Animation;");
    assert("Landroid/view/animation/Animation;"@.len() == 34);
    reveal_strlit("Landroid/graphics/Paint;");
    assert("Landroid/graphics/Paint;"@.len() == 24);
    reveal_strlit("Landroid/graphics/Color;");
    assert("Landroid/graphics/Color;"@.len() == 24);
    reveal_strlit("Landroid/graphics/BitmapFactory;");
    assert("Landroid/graphics/BitmapFactory;"@.len() == 32);
    reveal_strlit("Landroid/graphics/Bitmap;");
    assert("Landroid/graphics/Bitmap;"@.len() == 25);
    reveal_strlit("Landroid/view/animation/AnimationUtils;");
    assert("Landroid/view/animation/AnimationUtils;"@.len() == 39);
    reveal_strlit("Ljava/lang/Math;");
    assert("Ljava/lang/Math;"@.len() == 16);
    reveal_strlit("Ljava/lang/Object;");
    assert("Ljava/lang/Object;"@.len() == 18);
    reveal_strlit("Landroid/view/MotionEvent;");
    assert("Landroid/view/MotionEvent;"@.len() == 26);
    reveal_strlit("Landroid/view/");
    assert("Ljava/util/ArrayList;"@[1] == 'j' && "Landroid/view/"@[1] == 'a');
    lemma_does_not_start("Ljava/util/ArrayList;"@, "Landroid/view/"@, 1);
    reveal_strlit("Landroid/widget/");
    assert("Ljava/util/ArrayList;"@[1] == 'j' && "Landroid/widget/"@[1] == 'a');
    lemma_does_not_start("Ljava/util/ArrayList;"@, "Landroid/widget/"@, 1);
    reveal_strlit("Landroid/opengl/GLSurfaceView;");
    assert("Landroid/opengl/GLSurfaceView;"@.len() == 30);
    reveal_strlit("Landroid/hardware/SensorManager;");
    assert("Landroid/hardware/SensorManager;"@.len() == 32);
    reveal_strlit("Landroid/media/SoundPool;");
    assert("Landroid/media/SoundPool;"@.len() == 25);
    reveal_strlit("Landroid/media/MediaPlayer;");
    assert("Landroid/media/MediaPlayer;"@.len() == 27);
    reveal_strlit("Ljava/io/File;");
    assert("Ljava/io/File;"@.len() == 14);
    reveal_strlit("Ljava/lang/reflect/Array;");
    assert("Ljava/lang/reflect/Array;"@.len() == 25);
    reveal_strlit("Ljava/lang/Integer;");
    assert("Ljava/lang/Integer;"@.len() == 19);
    reveal_strlit("Ljava/lang/Long;");
    assert("Ljava/lang/Long;"@.len() == 16);
    reveal_strlit("Ljava/lang/Float;");
    assert("Ljava/lang/Float;"@.len() == 17);
    reveal_strlit("Ljava/lang/Double;");
    assert("Ljava/lang/Double;"@.len() == 18);
    reveal_strlit("Ljava/lang/Boolean;");
    assert("Ljava/lang/Boolean;"@.len() == 19);
    reveal_strlit("Ljava/lang/String;");
    assert("Ljava/lang/String;"@.len() == 18);
    reveal_strlit("Ljava/lang/StringBuilder;");
    assert("Ljava/lang/StringBuilder;"@.len() == 25);
}

/// The class `java.util.List` is answered for by its own methods.
pub proof fn lists_are_answered_for(
    w: WorldView,
    method: Seq<char>,
    args: Seq<ValueView>,
    answers: Seq<AnswerView>,
)
    requires
        method != "<init>"@,
    ensures
        dispatch::performed(w, "Ljava/util/List;"@, method, args, answers) == lists::list(w, method, args),
{
    reveal_strlit("Ljava/util/List;");
    assert("Ljava/util/List;"@.len() == 16);
    reveal_strlit("Landroid/util/Log;");
    assert("Landroid/util/Log;"@.len() == 18);
    reveal_strlit("Ljava/util/Collections;");
    assert("Ljava/util/Collections;"@.len() == 23);
    reveal_strlit("Ljava/io/PrintStream;");
    assert("Ljava/io/PrintStream;"@.len() == 21);
    reveal_strlit("Ljava/lang/Thread;");
    assert("Ljava/lang/Thread;"@.len() == 18);
    reveal_strlit("Landroid/os/Looper;");
    assert("Landroid/os/Looper;"@.len() == 19);
    reveal_strlit("Ljava/lang/System;");
    assert("Ljava/lang/System;"@.len() == 18);
    reveal_strlit("Ljava/util/Locale;");
    assert("Ljava/util/Locale;"@.len() == 18);
    reveal_strlit("Landroid/content/Intent;");
    assert("Landroid/content/Intent;"@.len() == 24);
    reveal_strlit("Landroid/os/Environment;");
    assert("Landroid/os/Environment;"@.len() == 24);
    reveal_strlit("Landroid/content/Context;");
    assert("Landroid/content/Context;"@.len() == 25);
    reveal_strlit("Landroid/app/");
    assert("Ljava/util/List;"@[1] == 'j' && "Landroid/app/"@[1] == 'a');
    lemma_does_not_start("Ljava/util/List;"@, "Landroid/app/"@, 1);
    reveal_strlit("Landroid/content/SharedPreferences;");
    assert("Landroid/content/SharedPreferences;"@.len() == 35);
    reveal_strlit("Landroid/content/res/Resources;");
    assert("Landroid/content/res/Resources;"@.len() == 31);
    reveal_strlit("Landroid/content/SharedPreferences$Editor;");
    assert("Landroid/content/SharedPreferences$Editor;"@.len() == 42);
    reveal_strlit("Landroid/graphics/Canvas;");
    assert("Landroid/graphics/Canvas;"@.len() == 25);
    reveal_strlit("Landroid/graphics/Path;");
    assert("Landroid/graphics/Path;"@.len() == 23);
    reveal_strlit("Landroid/graphics/Matrix;");
    assert("Landroid/graphics/Matrix;"@.len() == 25);
    reveal_strlit("Landroid/view/animation/Animation;");
    assert("Landroid/view/animation/Animation;"@.len() == 34);
    reveal_strlit("Landroid/graphics/Paint;");
    assert("Landroid/graphics/Paint;"@.len() == 24);
    reveal_strlit("Landroid/graphics/Color;");
    assert("Landroid/graphics/Color;"@.len() == 24);
    reveal_strlit("Landroid/graphics/BitmapFactory;");
    assert("Landroid/graphics/BitmapFactory;"@.len() == 32);
    reveal_strlit("Landroid/graphics/Bitmap;");
    assert("Landroid/graphics/Bitmap;"@.len() == 25);
    reveal_strlit("Landroid/view/animation/AnimationUtils;");
    assert("Landroid/view/animation/AnimationUtils;"@.len() == 39);
    reveal_strlit("Ljava/lang/Math;");
    assert("Ljava/util/List;"@[6] == 'u' && "Ljava/lang/Math;"@[6] == 'l');
    reveal_strlit("Ljava/lang/Object;");
    assert("Ljava/lang/Object;"@.len() == 18);
    reveal_strlit("Landroid/view/MotionEvent;");
    assert("Landroid/view/MotionEvent;"@.len() == 26);
    reveal_strlit("Landroid/view/");
    assert("Ljava/util/List;"@[1] == 'j' && "Landroid/view/"@[1] == 'a');
    lemma_does_not_start("Ljava/util/List;"@, "Landroid/view/"@, 1);
    reveal_strlit("Landroid/widget/");
    assert("Ljava/util/List;"@[1] == 'j' && "Landroid/widget/"@[1] == 'a');
    lemma_does_not_start("Ljava/util/List;"@, "Landroid/widget/"@, 1);
    reveal_strlit("Landroid/opengl/GLSurfaceView;");
    assert("Landroid/opengl/GLSurfaceView;"@.len() == 30);
    reveal_strlit("Landroid/hardware/SensorManager;");
    assert("Landroid/hardware/SensorManager;"@.len() == 32);
    reveal_strlit("Landroid/media/SoundPool;");
    assert("Landroid/media/SoundPool;"@.len() == 25);
    reveal_strlit("Landroid/media/MediaPlayer;");
    assert("Landroid/media/MediaPlayer;"@.len() == 27);
    reveal_strlit("Ljava/io/File;");
    assert("Ljava/io/File;"@.len() == 14);
    reveal_strlit("Ljava/lang/reflect/Array;");
    assert("Ljava/lang/reflect/Array;"@.len() == 25);
    reveal_strlit("Ljava/lang/Integer;");
    assert("Ljava/lang/Integer;"@.len() == 19);
    reveal_strlit("Ljava/lang/Long;");
    assert("Ljava/util/List;"@[6] == 'u' && "Ljava/lang/Long;"@[6] == 'l');
    reveal_strlit("Ljava/lang/Float;");
    assert("Ljava/lang/Float;"@.len() == 17);
    reveal_strlit("Ljava/lang/Double;");
    assert("Ljava/lang/Double;"@.len() == 18);
    reveal_strlit("Ljava/lang/Boolean;");
    assert("Ljava/lang/Boolean;"@.len() == 19);
    reveal_strlit("Ljava/lang/String;");
    assert("Ljava/lang/String;"@.len() == 18);
    reveal_strlit("Ljava/lang/StringBuilder;");
    assert("Ljava/lang/StringBuilder;"@.len() == 25);
    reveal_strlit("Ljava/util/ArrayList;");
    assert("Ljava/util/ArrayList;"@.len() == 21);
    reveal_strlit("Ljava/util/LinkedList;");
    assert("Ljava/util/LinkedList;"@.len() == 22);
    reveal_strlit("Ljava/util/HashMap;");
    assert("Ljava/util/HashMap;"@.len() == 19);
    reveal_strlit("Ljava/util/Vector;");
    assert("Ljava/util/Vector;"@.len() == 18);
    reveal_strlit("Ljava/util/Collection;");
    assert("Ljava/util/Collection;"@.len() == 22);
}

/// The class `java.util.Random` is answered for by its own methods.
pub proof fn random_numbers_are_answered_for(
    w: WorldView,
    method: Seq<char>,
    args: Seq<ValueView>,
    answers: Seq<AnswerView>,
)
    requires
        method != "<init>"@,
    ensures
        dispatch::performed(w, "Ljava/util/Random;"@, method, args, answers) == objects::random(w, method, args),
{
    reveal_strlit("Ljava/util/Random;");
    assert("Ljava/util/Random;"@.len() == 18);
    reveal_strlit("Landroid/util/Log;");
    assert("Ljava/util/Random;"@[1] == 'j' && "Landroid/util/Log;"@[1] == 'a');
    reveal_strlit("Ljava/util/Collections;");
    assert("Ljava/util/Collections;"@.len() == 23);
    reveal_strlit("Ljava/io/PrintStream;");
    assert("Ljava/io/PrintStream;"@.len() == 21);
    reveal_strlit("Ljava/lang/Thread;");
    assert("Ljava/util/Random;"@[6] == 'u' && "Ljava/lang/Thread;"@[6] == 'l');
    reveal_strlit("Landroid/os/Looper;");
    assert("Landroid/os/Looper;"@.len() == 19);
    reveal_strlit("Ljava/lang/System;");
    assert("Ljava/util/Random;"@[6] == 'u' && "Ljava/lang/System;"@[6] == 'l');
    reveal_strlit("Ljava/util/Locale;");
    assert("Ljava/util/Random;"@[11] == 'R' && "Ljava/util/Locale;"@[11] == 'L');
    reveal_strlit("Landroid/content/Intent;");
    assert("Landroid/content/Intent;"@.len() == 24);
    reveal_strlit("Landroid/os/Environment;");
    assert("Landroid/os/Environment;"@.len() == 24);
    reveal_strlit("Landroid/content/Context;");
    assert("Landroid/content/Context;"@.len() == 25);
    reveal_strlit("Landroid/app/");
    assert("Ljava/util/Random;"@[1] == 'j' && "Landroid/app/"@[1] == 'a');
    lemma_does_not_start("Ljava/util/Random;"@, "Landroid/app/"@, 1);
    reveal_strlit("Landroid/content/SharedPreferences;");
    assert("Landroid/content/SharedPreferences;"@.len() == 35);
    reveal_strlit("Landroid/content/res/Resources;");
    assert("Landroid/content/res/Resources;"@.len() == 31);
    reveal_strlit("Landroid/content/SharedPreferences$Editor;");
    assert("Landroid/content/SharedPreferences$Editor;"@.len() == 42);
    reveal_strlit("Landroid/graphics/Canvas;");
    assert("Landroid/graphics/Canvas;"@.len() == 25);
    reveal_strlit("Landroid/graphics/Path;");
    assert("Landroid/graphics/Path;"@.len() == 23);
    reveal_strlit("Landroid/graphics/Matrix;");
    assert("Landroid/graphics/Matrix;"@.len() == 25);
    reveal_strlit("Landroid/view/animation/Animation;");
    assert("Landroid/view/animation/Animation;"@.len() == 34);
    reveal_strlit("Landroid/graphics/Paint;");
    assert("Landroid/graphics/Paint;"@.len() == 24);
    reveal_strlit("Landroid/graphics/Color;");
    assert("Landroid/graphics/Color;"@.len() == 24);
    reveal_strlit("Landroid/graphics/BitmapFactory;");
    assert("Landroid/graphics/BitmapFactory;"@.len() == 32);
    reveal_strlit("Landroid/graphics/Bitmap;");
    assert("Landroid/graphics/Bitmap;"@.len() == 25);
    reveal_strlit("Landroid/view/animation/AnimationUtils;");
    assert("Landroid/view/animation/AnimationUtils;"@.len() == 39);
    reveal_strlit("Ljava/lang/Math;");
    assert("Ljava/lang/Math;"@.len() == 16);
    reveal_strlit("Ljava/lang/Object;");
    assert("Ljava/util/Random;"@[6] == 'u' && "Ljava/lang/Object;"@[6] == 'l');
    reveal_strlit("Landroid/view/MotionEvent;");
    assert("Landroid/view/MotionEvent;"@.len() == 26);
    reveal_strlit("Landroid/view/");
    assert("Ljava/util/Random;"@[1] == 'j' && "Landroid/view/"@[1] == 'a');
    lemma_does_not_start("Ljava/util/Random;"@, "Landroid/view/"@, 1);
    reveal_strlit("Landroid/widget/");
    assert("Ljava/util/Random;"@[1] == 'j' && "Landroid/widget/"@[1] == 'a');
    lemma_does_not_start("Ljava/util/Random;"@, "Landroid/widget/"@, 1);
    reveal_strlit("Landroid/opengl/GLSurfaceView;");
    assert("Landroid/opengl/GLSurfaceView;"@.len() == 30);
    reveal_strlit("Landroid/hardware/SensorManager;");
    assert("Landroid/hardware/SensorManager;"@.len() == 32);
    reveal_strlit("Landroid/media/SoundPool;");
    assert("Landroid/media/SoundPool;"@.len() == 25);
    reveal_strlit("Landroid/media/MediaPlayer;");
    assert("Landroid/media/MediaPlayer;"@.len() == 27);
    reveal_strlit("Ljava/io/File;");
    assert("Ljava/io/File;"@.len() == 14);
    reveal_strlit("Ljava/lang/reflect/Array;");
    assert("Ljava/lang/reflect/Array;"@.len() == 25);
    reveal_strlit("Ljava/lang/Integer;");
    assert("Ljava/lang/Integer;"@.len() == 19);
    reveal_strlit("Ljava/lang/Long;");
    assert("Ljava/lang/Long;"@.len() == 16);
    reveal_strlit("Ljava/lang/Float;");
    assert("Ljava/lang/Float;"@.len() == 17);
    reveal_strlit("Ljava/lang/Double;");
    assert("Ljava/util/Random;"@[6] == 'u' && "Ljava/lang/Double;"@[6] == 'l');
    reveal_strlit("Ljava/lang/Boolean;");
    assert("Ljava/lang/Boolean;"@.len() == 19);
    reveal_strlit("Ljava/lang/String;");
    assert("Ljava/util/Random;"@[6] == 'u' && "Ljava/lang/String;"@[6] == 'l');
    reveal_strlit("Ljava/lang/StringBuilder;");
    assert("Ljava/lang/StringBuilder;"@.len() == 25);
    reveal_strlit("Ljava/util/ArrayList;");
    assert("Ljava/util/ArrayList;"@.len() == 21);
    reveal_strlit("Ljava/util/LinkedList;");
    assert("Ljava/util/LinkedList;"@.len() == 22);
    reveal_strlit("Ljava/util/HashMap;");
    assert("Ljava/util/HashMap;"@.len() == 19);
    reveal_strlit("Ljava/util/Vector;");
    assert("Ljava/util/Random;"@[11] == 'R' && "Ljava/util/Vector;"@[11] == 'V');
    reveal_strlit("Ljava/util/Collection;");
    assert("Ljava/util/Collection;"@.len() == 22);
    reveal_strlit("Ljava/util/List;");
    assert("Ljava/util/List;"@.len() == 16);
    reveal_strlit("Ljava/util/AbstractList;");
    assert("Ljava/util/AbstractList;"@.len() == 24);
    reveal_strlit("Ljava/util/AbstractCollection;");
    assert("Ljava/util/AbstractCollection;"@.len() == 30);
    reveal_strlit("Ljava/lang/Class;");
    assert("Ljava/lang/Class;"@.len() == 17);
    reveal_strlit("Ljava/text/DecimalFormat;");
    assert("Ljava/text/DecimalFormat;"@.len() == 25);
}

/// The class `android.os.Bundle` is answered for by its own methods.
pub proof fn bundles_are_answered_for(
    w: WorldView,
    method: Seq<char>,
    args: Seq<ValueView>,
    answers: Seq<AnswerView>,
)
    requires
        method != "<init>"@,
    ensures
        dispatch::performed(w, "Landroid/os/Bundle;"@, method, args, answers) == activity::bundle(w, method, args),
{
    reveal_strlit("Landroid/os/Bundle;");
    assert("Landroid/os/Bundle;"@.len() == 19);
    reveal_strlit("Landroid/util/Log;");
    assert("Landroid/util/Log;"@.len() == 18);
    reveal_strlit("Ljava/util/Collections;");
    assert("Ljava/util/Collections;"@.len() == 23);
    reveal_strlit("Ljava/io/PrintStream;");
    assert("Ljava/io/PrintStream;"@.len() == 21);
    reveal_strlit("Ljava/lang/Thread;");
    assert("Ljava/lang/Thread;"@.len() == 18);
    reveal_strlit("Landroid/os/Looper;");
    assert("Landroid/os/Bundle;"@[12] == 'B' && "Landroid/os/Looper;"@[12] == 'L');
    reveal_strlit("Ljava/lang/System;");
    assert("Ljava/lang/System;"@.len() == 18);
    reveal_strlit("Ljava/util/Locale;");
    assert("Ljava/util/Locale;"@.len() == 18);
    reveal_strlit("Landroid/content/Intent;");
    assert("Landroid/content/Intent;"@.len() == 24);
    reveal_strlit("Landroid/os/Environment;");
    assert("Landroid/os/Environment;"@.len() == 24);
    reveal_strlit("Landroid/content/Context;");
    assert("Landroid/content/Context;"@.len() == 25);
    reveal_strlit("Landroid/app/");
    assert("Landroid/os/Bundle;"@[9] == 'o' && "Landroid/app/"@[9] == 'a');
    lemma_does_not_start("Landroid/os/Bundle;"@, "Landroid/app/"@, 9);
    reveal_strlit("Landroid/content/SharedPreferences;");
    assert("Landroid/content/SharedPreferences;"@.len() == 35);
    reveal_strlit("Landroid/content/res/Resources;");
    assert("Landroid/content/res/Resources;"@.len() == 31);
    reveal_strlit("Landroid/content/SharedPreferences$Editor;");
    assert("Landroid/content/SharedPreferences$Editor;"@.len() == 42);
    reveal_strlit("Landroid/graphics/Canvas;");
    assert("Landroid/graphics/Canvas;"@.len() == 25);
    reveal_strlit("Landroid/graphics/Path;");
    assert("Landroid/graphics/Path;"@.len() == 23);
    reveal_strlit("Landroid/graphics/Matrix;");
    assert("Landroid/graphics/Matrix;"@.len() == 25);
    reveal_strlit("Landroid/view/animation/Animation;");
    assert("Landroid/view/animation/Animation;"@.len() == 34);
    reveal_strlit("Landroid/graphics/Paint;");
    assert("Landroid/graphics/Paint;"@.len() == 24);
    reveal_strlit("Landroid/graphics/Color;");
    assert("Landroid/graphics/Color;"@.len() == 24);
    reveal_strlit("Landroid/graphics/BitmapFactory;");
    assert("Landroid/graphics/BitmapFactory;"@.len() == 32);
    reveal_strlit("Landroid/graphics/Bitmap;");
    assert("Landroid/graphics/Bitmap;"@.len() == 25);
    reveal_strlit("Landroid/view/animation/AnimationUtils;");
    assert("Landroid/view/animation/AnimationUtils;"@.len() == 39);
    reveal_strlit("Ljava/lang/Math;");
    assert("Ljava/lang/Math;"@.len() == 16);
    reveal_strlit("Ljava/lang/Object;");
    assert("Ljava/lang/Object;"@.len() == 18);
    reveal_strlit("Landroid/view/MotionEvent;");
    assert("Landroid/view/MotionEvent;"@.len() == 26);
    reveal_strlit("Landroid/view/");
    assert("Landroid/os/Bundle;"@[9] == 'o' && "Landroid/view/"@[9] == 'v');
    lemma_does_not_start("Landroid/os/Bundle;"@, "Landroid/view/"@, 9);
    reveal_strlit("Landroid/widget/");
    assert("Landroid/os/Bundle;"@[9] == 'o' && "Landroid/widget/"@[9] == 'w');
    lemma_does_not_start("Landroid/os/Bundle;"@, "Landroid/widget/"@, 9);
    reveal_strlit("Landroid/opengl/GLSurfaceView;");
    assert("Landroid/opengl/GLSurfaceView;"@.len() == 30);
    reveal_strlit("Landroid/hardware/SensorManager;");
    assert("Landroid/hardware/SensorManager;"@.len() == 32);
    reveal_strlit("Landroid/media/SoundPool;");
    assert("Landroid/media/SoundPool;"@.len() == 25);
    reveal_strlit("Landroid/media/MediaPlayer;");
    assert("Landroid/media/MediaPlayer;"@.len() == 27);
    reveal_strlit("Ljava/io/File;");
    assert("Ljava/io/File;"@.len() == 14);
    reveal_strlit("Ljava/lang/reflect/Array;");
    assert("Ljava/lang/reflect/Array;"@.len() == 25);
    reveal_strlit("Ljava/lang/Integer;");
    assert("Landroid/os/Bundle;"@[1] == 'a' && "Ljava/lang/Integer;"@[1] == 'j');
    reveal_strlit("Ljava/lang/Long;");
    assert("Ljava/lang/Long;"@.len() == 16);
    reveal_strlit("Ljava/lang/Float;");
    assert("Ljava/lang/Float;"@.len() == 17);
    reveal_strlit("Ljava/lang/Double;");
    assert("Ljava/lang/Double;"@.len() == 18);
    reveal_strlit("Ljava/lang/Boolean;");
    assert("Landroid/os/Bundle;"@[1] == 'a' && "Ljava/lang/Boolean;"@[1] == 'j');
    reveal_strlit("Ljava/lang/String;");
    assert("Ljava/lang/String;"@.len() == 18);
    reveal_strlit("Ljava/lang/StringBuilder;");
    assert("Ljava/lang/StringBuilder;"@.len() == 25);
    reveal_strlit("Ljava/util/ArrayList;");
    assert("Ljava/util/ArrayList;"@.len() == 21);
    reveal_strlit("Ljava/util/LinkedList;");
    assert("Ljava/util/LinkedList;"@.len() == 22);
    reveal_strlit("Ljava/util/HashMap;");
    assert("Landroid/os/Bundle;"@[1] == 'a' && "Ljava/util/HashMap;"@[1] == 'j');
    reveal_strlit("Ljava/util/Vector;");
    assert("Ljava/util/Vector;"@.len() == 18);
    reveal_strlit("Ljava/util/Collection;");
    assert("Ljava/util/Collection;"@.len() == 22);
    reveal_strlit("Ljava/util/List;");
    assert("Ljava/util/List;"@.len() == 16);
    reveal_strlit("Ljava/util/AbstractList;");
    assert("Ljava/util/AbstractList;"@.len() == 24);
    reveal_strlit("Ljava/util/AbstractCollection;");
    assert("Ljava/util/AbstractCollection;"@.len() == 30);
    reveal_strlit("Ljava/lang/Class;");
    assert("Ljava/lang/Class;"@.len() == 17);
    reveal_strlit("Ljava/text/DecimalFormat;");
    assert("Ljava/text/DecimalFormat;"@.len() == 25);
    reveal_strlit("Ljava/util/Random;");
    assert("Ljava/util/Random;"@.len() == 18);
    reveal_strlit("Landroid/graphics/Typeface;");
    assert("Landroid/graphics/Typeface;"@.len() == 27);
    reveal_strlit("Ljava/util/Timer;");
    assert("Ljava/util/Timer;"@.len() == 17);
    reveal_strlit("Landroid/os/Message;");
    assert("Landroid/os/Message;"@.len() == 20);
    reveal_strlit("Ljava/util/TimerTask;");
    assert("Ljava/util/TimerTask;"@.len() == 21);
    reveal_strlit("Landroid/os/Handler;");
    assert("Landroid/os/Handler;"@.len() == 20);
}

/// The class `com.badlogic.gdx.graphics.g2d.Sprite` is answered for by the methods of drawable things.
pub proof fn sprites_are_answered_for(
    w: WorldView,
    steps: usize,
    method: Seq<char>,
    args: Seq<ValueView>,
    answers: Seq<AnswerView>,
)
    requires
        method != "<clinit>"@,
    ensures
        sprites::performed(w, "Lcom/badlogic/gdx/graphics/g2d/Sprite;"@, method, args, answers) matches Some(done)
            ==> gdx::dispatch::performed(w, steps, "Lcom/badlogic/gdx/graphics/g2d/Sprite;"@, method, args, answers) == done,
        gdx::dispatch::question(w, "Lcom/badlogic/gdx/graphics/g2d/Sprite;"@, method, args, answers) == sprites::question(
            w,
            "Lcom/badlogic/gdx/graphics/g2d/Sprite;"@,
            method,
            args,
            answers,
        ),
{
    reveal_strlit("Lcom/badlogic/gdx/graphics/g2d/Sprite;");
    assert("Lcom/badlogic/gdx/graphics/g2d/Sprite;"@.len() == 38);
    reveal_strlit("Lcom/badlogic/gdx/backends/android/AndroidApplication;");
    assert("Lcom/badlogic/gdx/backends/android/AndroidApplication;"@.len() == 54);
    reveal_strlit("Lcom/badlogic/gdx/backends/android/AndroidGraphics;");
    assert("Lcom/badlogic/gdx/backends/android/AndroidGraphics;"@.len() == 51);
    reveal_strlit("Lcom/badlogic/gdx/Application;");
    assert("Lcom/badlogic/gdx/Application;"@.len() == 30);
    reveal_strlit("Lcom/badlogic/gdx/ApplicationListener;");
    assert("Lcom/badlogic/gdx/graphics/g2d/Sprite;"@[18] == 'g' && "Lcom/badlogic/gdx/ApplicationListener;"@[18] == 'A');
    reveal_strlit("Lcom/badlogic/gdx/Graphics;");
    assert("Lcom/badlogic/gdx/Graphics;"@.len() == 27);
    reveal_strlit("Lcom/badlogic/gdx/Input;");
    assert("Lcom/badlogic/gdx/Input;"@.len() == 24);
    reveal_strlit("Lcom/badlogic/gdx/Files;");
    assert("Lcom/badlogic/gdx/Files;"@.len() == 24);
    reveal_strlit("Lcom/badlogic/gdx/files/FileHandle;");
    assert("Lcom/badlogic/gdx/files/FileHandle;"@.len() == 35);
    reveal_strlit("Lcom/badlogic/gdx/audio/Sound;");
    assert("Lcom/badlogic/gdx/audio/Sound;"@.len() == 30);
    reveal_strlit("Lcom/badlogic/gdx/audio/Music;");
    assert("Lcom/badlogic/gdx/audio/Music;"@.len() == 30);
    reveal_strlit("Lcom/badlogic/gdx/Preferences;");
    assert("Lcom/badlogic/gdx/Preferences;"@.len() == 30);
    reveal_strlit("Lcom/badlogic/gdx/graphics/GL10;");
    assert("Lcom/badlogic/gdx/graphics/GL10;"@.len() == 32);
    reveal_strlit("Lcom/badlogic/gdx/graphics/GLCommon;");
    assert("Lcom/badlogic/gdx/graphics/GLCommon;"@.len() == 36);
    reveal_strlit("Lcom/badlogic/gdx/math/MathUtils;");
    assert("Lcom/badlogic/gdx/math/MathUtils;"@.len() == 33);
    reveal_strlit("Lcom/badlogic/gdx/math/Vector3;");
    assert("Lcom/badlogic/gdx/math/Vector3;"@.len() == 31);
    reveal_strlit("Lcom/badlogic/gdx/graphics/Color;");
    assert("Lcom/badlogic/gdx/graphics/Color;"@.len() == 33);
    reveal_strlit("Lcom/badlogic/gdx/graphics/OrthographicCamera;");
    assert("Lcom/badlogic/gdx/graphics/OrthographicCamera;"@.len() == 46);
}

/// The class `com.badlogic.gdx.graphics.g2d.SpriteBatch` is answered for by the methods of drawable things.
pub proof fn batches_are_answered_for(
    w: WorldView,
    steps: usize,
    method: Seq<char>,
    args: Seq<ValueView>,
    answers: Seq<AnswerView>,
)
    requires
        method != "<clinit>"@,
    ensures
        sprites::performed(w, "Lcom/badlogic/gdx/graphics/g2d/SpriteBatch;"@, method, args, answers) matches Some(done)
            ==> gdx::dispatch::performed(w, steps, "Lcom/badlogic/gdx/graphics/g2d/SpriteBatch;"@, method, args, answers) == done,
        gdx::dispatch::question(w, "Lcom/badlogic/gdx/graphics/g2d/SpriteBatch;"@, method, args, answers) == sprites::question(
            w,
            "Lcom/badlogic/gdx/graphics/g2d/SpriteBatch;"@,
            method,
            args,
            answers,
        ),
{
    reveal_strlit("Lcom/badlogic/gdx/graphics/g2d/SpriteBatch;");
    assert("Lcom/badlogic/gdx/graphics/g2d/SpriteBatch;"@.len() == 43);
    reveal_strlit("Lcom/badlogic/gdx/backends/android/AndroidApplication;");
    assert("Lcom/badlogic/gdx/backends/android/AndroidApplication;"@.len() == 54);
    reveal_strlit("Lcom/badlogic/gdx/backends/android/AndroidGraphics;");
    assert("Lcom/badlogic/gdx/backends/android/AndroidGraphics;"@.len() == 51);
    reveal_strlit("Lcom/badlogic/gdx/Application;");
    assert("Lcom/badlogic/gdx/Application;"@.len() == 30);
    reveal_strlit("Lcom/badlogic/gdx/ApplicationListener;");
    assert("Lcom/badlogic/gdx/ApplicationListener;"@.len() == 38);
    reveal_strlit("Lcom/badlogic/gdx/Graphics;");
    assert("Lcom/badlogic/gdx/Graphics;"@.len() == 27);
    reveal_strlit("Lcom/badlogic/gdx/Input;");
    assert("Lcom/badlogic/gdx/Input;"@.len() == 24);
    reveal_strlit("Lcom/badlogic/gdx/Files;");
    assert("Lcom/badlogic/gdx/Files;"@.len() == 24);
    reveal_strlit("Lcom/badlogic/gdx/files/FileHandle;");
    assert("Lcom/badlogic/gdx/files/FileHandle;"@.len() == 35);
    reveal_strlit("Lcom/badlogic/gdx/audio/Sound;");
    assert("Lcom/badlogic/gdx/audio/Sound;"@.len() == 30);
    reveal_strlit("Lcom/badlogic/gdx/audio/Music;");
    assert("Lcom/badlogic/gdx/audio/Music;"@.len() == 30);
    reveal_strlit("Lcom/badlogic/gdx/Preferences;");
    assert("Lcom/badlogic/gdx/Preferences;"@.len() == 30);
    reveal_strlit("Lcom/badlogic/gdx/graphics/GL10;");
    assert("Lcom/badlogic/gdx/graphics/GL10;"@.len() == 32);
    reveal_strlit("Lcom/badlogic/gdx/graphics/GLCommon;");
    assert("Lcom/badlogic/gdx/graphics/GLCommon;"@.len() == 36);
    reveal_strlit("Lcom/badlogic/gdx/math/MathUtils;");
    assert("Lcom/badlogic/gdx/math/MathUtils;"@.len() == 33);
    reveal_strlit("Lcom/badlogic/gdx/math/Vector3;");
    assert("Lcom/badlogic/gdx/math/Vector3;"@.len() == 31);
    reveal_strlit("Lcom/badlogic/gdx/graphics/Color;");
    assert("Lcom/badlogic/gdx/graphics/Color;"@.len() == 33);
    reveal_strlit("Lcom/badlogic/gdx/graphics/OrthographicCamera;");
    assert("Lcom/badlogic/gdx/graphics/OrthographicCamera;"@.len() == 46);
}

/// The class `com.badlogic.gdx.graphics.g2d.TextureAtlas` is answered for by the methods of drawable things.
pub proof fn atlases_are_answered_for(
    w: WorldView,
    steps: usize,
    method: Seq<char>,
    args: Seq<ValueView>,
    answers: Seq<AnswerView>,
)
    requires
        method != "<clinit>"@,
    ensures
        sprites::performed(w, "Lcom/badlogic/gdx/graphics/g2d/TextureAtlas;"@, method, args, answers) matches Some(done)
            ==> gdx::dispatch::performed(w, steps, "Lcom/badlogic/gdx/graphics/g2d/TextureAtlas;"@, method, args, answers) == done,
        gdx::dispatch::question(w, "Lcom/badlogic/gdx/graphics/g2d/TextureAtlas;"@, method, args, answers) == sprites::question(
            w,
            "Lcom/badlogic/gdx/graphics/g2d/TextureAtlas;"@,
            method,
            args,
            answers,
        ),
{
    reveal_strlit("Lcom/badlogic/gdx/graphics/g2d/TextureAtlas;");
    assert("Lcom/badlogic/gdx/graphics/g2d/TextureAtlas;"@.len() == 44);
    reveal_strlit("Lcom/badlogic/gdx/backends/android/AndroidApplication;");
    assert("Lcom/badlogic/gdx/backends/android/AndroidApplication;"@.len() == 54);
    reveal_strlit("Lcom/badlogic/gdx/backends/android/AndroidGraphics;");
    assert("Lcom/badlogic/gdx/backends/android/AndroidGraphics;"@.len() == 51);
    reveal_strlit("Lcom/badlogic/gdx/Application;");
    assert("Lcom/badlogic/gdx/Application;"@.len() == 30);
    reveal_strlit("Lcom/badlogic/gdx/ApplicationListener;");
    assert("Lcom/badlogic/gdx/ApplicationListener;"@.len() == 38);
    reveal_strlit("Lcom/badlogic/gdx/Graphics;");
    assert("Lcom/badlogic/gdx/Graphics;"@.len() == 27);
    reveal_strlit("Lcom/badlogic/gdx/Input;");
    assert("Lcom/badlogic/gdx/Input;"@.len() == 24);
    reveal_strlit("Lcom/badlogic/gdx/Files;");
    assert("Lcom/badlogic/gdx/Files;"@.len() == 24);
    reveal_strlit("Lcom/badlogic/gdx/files/FileHandle;");
    assert("Lcom/badlogic/gdx/files/FileHandle;"@.len() == 35);
    reveal_strlit("Lcom/badlogic/gdx/audio/Sound;");
    assert("Lcom/badlogic/gdx/audio/Sound;"@.len() == 30);
    reveal_strlit("Lcom/badlogic/gdx/audio/Music;");
    assert("Lcom/badlogic/gdx/audio/Music;"@.len() == 30);
    reveal_strlit("Lcom/badlogic/gdx/Preferences;");
    assert("Lcom/badlogic/gdx/Preferences;"@.len() == 30);
    reveal_strlit("Lcom/badlogic/gdx/graphics/GL10;");
    assert("Lcom/badlogic/gdx/graphics/GL10;"@.len() == 32);
    reveal_strlit("Lcom/badlogic/gdx/graphics/GLCommon;");
    assert("Lcom/badlogic/gdx/graphics/GLCommon;"@.len() == 36);
    reveal_strlit("Lcom/badlogic/gdx/math/MathUtils;");
    assert("Lcom/badlogic/gdx/math/MathUtils;"@.len() == 33);
    reveal_strlit("Lcom/badlogic/gdx/math/Vector3;");
    assert("Lcom/badlogic/gdx/math/Vector3;"@.len() == 31);
    reveal_strlit("Lcom/badlogic/gdx/graphics/Color;");
    assert("Lcom/badlogic/gdx/graphics/Color;"@.len() == 33);
    reveal_strlit("Lcom/badlogic/gdx/graphics/OrthographicCamera;");
    assert("Lcom/badlogic/gdx/graphics/OrthographicCamera;"@.len() == 46);
}

/// The class `com.badlogic.gdx.graphics.Texture` is answered for by the methods of drawable things.
pub proof fn textures_are_answered_for(
    w: WorldView,
    steps: usize,
    method: Seq<char>,
    args: Seq<ValueView>,
    answers: Seq<AnswerView>,
)
    requires
        method != "<clinit>"@,
    ensures
        sprites::performed(w, "Lcom/badlogic/gdx/graphics/Texture;"@, method, args, answers) matches Some(done)
            ==> gdx::dispatch::performed(w, steps, "Lcom/badlogic/gdx/graphics/Texture;"@, method, args, answers) == done,
        gdx::dispatch::question(w, "Lcom/badlogic/gdx/graphics/Texture;"@, method, args, answers) == sprites::question(
            w,
            "Lcom/badlogic/gdx/graphics/Texture;"@,
            method,
            args,
            answers,
        ),
{
    reveal_strlit("Lcom/badlogic/gdx/graphics/Texture;");
    assert("Lcom/badlogic/gdx/graphics/Texture;"@.len() == 35);
    reveal_strlit("Lcom/badlogic/gdx/backends/android/AndroidApplication;");
    assert("Lcom/badlogic/gdx/backends/android/AndroidApplication;"@.len() == 54);
    reveal_strlit("Lcom/badlogic/gdx/backends/android/AndroidGraphics;");
    assert("Lcom/badlogic/gdx/backends/android/AndroidGraphics;"@.len() == 51);
    reveal_strlit("Lcom/badlogic/gdx/Application;");
    assert("Lcom/badlogic/gdx/Application;"@.len() == 30);
    reveal_strlit("Lcom/badlogic/gdx/ApplicationListener;");
    assert("Lcom/badlogic/gdx/ApplicationListener;"@.len() == 38);
    reveal_strlit("Lcom/badlogic/gdx/Graphics;");
    assert("Lcom/badlogic/gdx/Graphics;"@.len() == 27);
    reveal_strlit("Lcom/badlogic/gdx/Input;");
    assert("Lcom/badlogic/gdx/Input;"@.len() == 24);
    reveal_strlit("Lcom/badlogic/gdx/Files;");
    assert("Lcom/badlogic/gdx/Files;"@.len() == 24);
    reveal_strlit("Lcom/badlogic/gdx/files/FileHandle;");
    assert("Lcom/badlogic/gdx/graphics/Texture;"@[18] == 'g' && "Lcom/badlogic/gdx/files/FileHandle;"@[18] == 'f');
    reveal_strlit("Lcom/badlogic/gdx/audio/Sound;");
    assert("Lcom/badlogic/gdx/audio/Sound;"@.len() == 30);
    reveal_strlit("Lcom/badlogic/gdx/audio/Music;");
    assert("Lcom/badlogic/gdx/audio/Music;"@.len() == 30);
    reveal_strlit("Lcom/badlogic/gdx/Preferences;");
    assert("Lcom/badlogic/gdx/Preferences;"@.len() == 30);
    reveal_strlit("Lcom/badlogic/gdx/graphics/GL10;");
    assert("Lcom/badlogic/gdx/graphics/GL10;"@.len() == 32);
    reveal_strlit("Lcom/badlogic/gdx/graphics/GLCommon;");
    assert("Lcom/badlogic/gdx/graphics/GLCommon;"@.len() == 36);
    reveal_strlit("Lcom/badlogic/gdx/math/MathUtils;");
    assert("Lcom/badlogic/gdx/math/MathUtils;"@.len() == 33);
    reveal_strlit("Lcom/badlogic/gdx/math/Vector3;");
    assert("Lcom/badlogic/gdx/math/Vector3;"@.len() == 31);
    reveal_strlit("Lcom/badlogic/gdx/graphics/Color;");
    assert("Lcom/badlogic/gdx/graphics/Color;"@.len() == 33);
    reveal_strlit("Lcom/badlogic/gdx/graphics/OrthographicCamera;");
    assert("Lcom/badlogic/gdx/graphics/OrthographicCamera;"@.len() == 46);
}

} // verus!
