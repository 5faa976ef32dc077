//! Regions, colours and what is drawn with all parameters.

use vstd::arithmetic::power2::*;
use vstd::prelude::*;

use crate::color;
use crate::color::Rgba8;
use crate::error::ErrorView;
use crate::float;
use crate::gdx::gl;
use crate::gdx::sprites;
use crate::host;
use crate::host::{AnswerView, EffectView, QueryView};
use crate::laws::memory;
use crate::laws::sprites::{lemma_copied, lemma_field_names, lemma_pixels, lemma_set};
use crate::value;
use crate::value::{ObjectId, ValueView};
use crate::world::WorldView;

verus! {

/// These names are different.
proof fn lemma_region_methods()
    ensures
        "getRegionWidth"@ != "<init>"@,
        "getRegionHeight"@ != "<init>"@,
        "getRegionHeight"@ != "getRegionWidth"@,
        "getRegionX"@ != "<init>"@,
        "getRegionX"@ != "getRegionWidth"@,
        "getRegionX"@ != "getRegionHeight"@,
        "getRegionY"@ != "<init>"@,
        "getRegionY"@ != "getRegionWidth"@,
        "getRegionY"@ != "getRegionHeight"@,
        "getRegionY"@ != "getRegionX"@,
{
    reveal_strlit("<init>");
    reveal_strlit("getRegionWidth");
    reveal_strlit("getRegionHeight");
    reveal_strlit("getRegionX");
    reveal_strlit("getRegionY");
    assert("<init>"@.len() == 6);
    assert("getRegionWidth"@.len() == 14);
    assert("getRegionHeight"@.len() == 15);
    assert("getRegionX"@.len() == 10);
    assert("getRegionY"@.len() == 10);
    assert("getRegionY"@[9] == 'Y' && "getRegionX"@[9] == 'X');
}

/// A region tells where it lies and how large it is.
pub proof fn a_region_tells_where_it_lies(
    w: WorldView,
    id: ObjectId,
    of_atlas: bool,
    x: i32,
    y: i32,
    width: i32,
    height: i32,
)
    requires
        w.field(id, "region_x"@) == Some(ValueView::Int(x)),
        w.field(id, "region_y"@) == Some(ValueView::Int(y)),
        w.field(id, "region_width"@) == Some(ValueView::Int(width)),
        w.field(id, "region_height"@) == Some(ValueView::Int(height)),
        0 <= x < 0x100_0000,
        0 <= y < 0x100_0000,
        0 <= width < 0x100_0000,
        0 <= height < 0x100_0000,
    ensures
        ({
            let me = seq![ValueView::Object(id)];
            let none = Seq::<AnswerView>::empty();
            let told = |method: Seq<char>| sprites::region(w, of_atlas, method, me, none);
            let is = |n: i32| Some((w, Ok::<ValueView, ErrorView>(ValueView::Int(n))));
            &&& told("getRegionX"@) == is(x)
            &&& told("getRegionY"@) == is(y)
            &&& told("getRegionWidth"@) == is(width)
            &&& told("getRegionHeight"@) == is(height)
        }),
{
    lemma_region_methods();
    let me = seq![ValueView::Object(id)];
    assert(value::at(me, 0) == Some(ValueView::Object(id)));
    lemma_there_and_back(x);
    lemma_there_and_back(y);
    lemma_there_and_back(width);
    lemma_there_and_back(height);
}

proof fn lemma_there_and_back(n: i32)
    requires
        0 <= n < 0x100_0000,
    ensures
        float::single_as(
            float::int_as_single(n as int),
            i32::MIN as int,
            i32::MAX as int,
        ) == n,
{
    let b = float::int_as_single(n as int);
    if n == 0 {
        crate::laws::conversions::a_short_integer_is_exact_as_a_single(0);
    } else {
        lemma_pixels(n as u32);
    }
    lemma_pow2_pos(149);
    let one = pow2(149) as int;
    let r = float::single_as(b, i32::MIN as int, i32::MAX as int);
    crate::laws::conversions::a_number_loses_its_fraction(b, 0, i32::MIN as int, i32::MAX as int);
    assert(float::single_worth(b) == n * one);
    assert(r == n) by (nonlinear_arith)
        requires
            crate::laws::conversions::truncates(
                r,
                n * one,
                one,
                i32::MIN as int,
                i32::MAX as int,
            ),
            one > 0,
            0 <= n < 0x100_0000,
    ;
}

/// A region that is made of another lies where that one does.
pub proof fn a_region_of_a_region_lies_where_it_does(
    w: WorldView,
    region: ObjectId,
    source: ObjectId,
    of_atlas: bool,
    name: Seq<char>,
    answers: Seq<AnswerView>,
)
    requires
        w.class_of(region) is Some,
        source != region,
        w.field(source, "region_width"@) is Some,
        sprites::measured(w.field(source, "region_width"@)),
        name == "region_x"@ || name == "region_y"@ || name == "region_width"@ || name
            == "region_height"@ || name == "asset_path"@ || name == "path"@,
    ensures
        ({
            let args = seq![ValueView::Object(region), ValueView::Object(source)];
            let made = sprites::region(w, of_atlas, "<init>"@, args, answers);
            made matches Some((after, r)) && r is Ok && after.field(region, name) == match w.field(
                source,
                name,
            ) {
                Some(v) => Some(v),
                None => w.field(region, name),
            }
        }),
{
    let args = seq![ValueView::Object(region), ValueView::Object(source)];
    assert(value::at(args, 0) == Some(ValueView::Object(region)));
    assert(value::at(args, 1) == Some(ValueView::Object(source)));
    lemma_drawable();
    lemma_copied(w, source, region, name);
}

proof fn lemma_drawable()
    ensures
        sprites::drawable_fields().contains("asset_path"@),
        sprites::drawable_fields().contains("path"@),
        sprites::drawable_fields().contains("region_x"@),
        sprites::drawable_fields().contains("region_y"@),
        sprites::drawable_fields().contains("region_width"@),
        sprites::drawable_fields().contains("region_height"@),
{
    let all = sprites::drawable_fields();
    assert(all[0] == "asset_path"@ && all[1] == "path"@ && all[2] == "region_x"@);
    assert(all[3] == "region_y"@ && all[4] == "region_width"@ && all[5] == "region_height"@);
}

/// A region of a texture that says no size covers its whole image: it asks for the size and is as
/// large.
pub proof fn a_region_of_a_texture_covers_it(
    w: WorldView,
    region: ObjectId,
    source: ObjectId,
    of_atlas: bool,
    path: Seq<char>,
    width: u32,
    height: u32,
)
    requires
        w.class_of(region) is Some,
        source != region,
        w.field(source, "path"@) == Some(ValueView::String(path)),
        w.field(source, "region_width"@) is None,
        w.field(region, "region_width"@) is None,
        width <= i32::MAX,
        height <= i32::MAX,
    ensures
        ({
            let args = seq![ValueView::Object(region), ValueView::Object(source)];
            let answers = seq![AnswerView::Size(Some((width, height)))];
            let made = sprites::region(w, of_atlas, "<init>"@, args, answers);
            &&& sprites::region_question(w, args, Seq::empty(), of_atlas) == Some(
                QueryView::ImageSize(path),
            )
            &&& made matches Some((after, r)) && r is Ok && {
                &&& after.field(region, "path"@) == Some(ValueView::String(path))
                &&& after.field(region, "region_width"@) == Some(ValueView::Int(width as i32))
                &&& after.field(region, "region_height"@) == Some(ValueView::Int(height as i32))
                &&& of_atlas ==> after.field(region, "region_x"@) == Some(ValueView::Int(0))
                &&& of_atlas ==> after.field(region, "region_y"@) == Some(ValueView::Int(0))
            }
        }),
{
    let args = seq![ValueView::Object(region), ValueView::Object(source)];
    assert(value::at(args, 0) == Some(ValueView::Object(region)));
    assert(value::at(args, 1) == Some(ValueView::Object(source)));
    let answers = seq![AnswerView::Size(Some((width, height)))];
    assert(host::size_in(answers, 0) == Some((width, height)));
    lemma_field_names();
    lemma_set(region);
    lemma_drawable();
    lemma_copied(w, source, region, "path"@);
    let copied = w.copied_drawable(source, region);
    let placed = copied.with_field(region, "region_x"@, ValueView::Int(0)).with_field(
        region,
        "region_y"@,
        ValueView::Int(0),
    );
    assert(sprites::unmeasured_image(w, source, region, of_atlas) == Some(path));
    lemma_sized(copied, region, width, height);
    lemma_sized(placed, region, width, height);
}

proof fn lemma_sized(w: WorldView, id: ObjectId, width: u32, height: u32)
    requires
        w.class_of(id) is Some,
    ensures
        ({
            let after = sprites::with_size(w, id, width, height);
            &&& after.field(id, "region_width"@) == Some(ValueView::Int(width as i32))
            &&& after.field(id, "region_height"@) == Some(ValueView::Int(height as i32))
            &&& after.field(id, "path"@) == w.field(id, "path"@)
            &&& after.field(id, "region_x"@) == w.field(id, "region_x"@)
            &&& after.field(id, "region_y"@) == w.field(id, "region_y"@)
        }),
{
    lemma_field_names();
    lemma_set(id);
}

// Colours.

/// These names are different.
proof fn lemma_color_methods()
    ensures
        "setOrigin"@ != "<init>"@,
        "setRotation"@ != "<init>"@,
        "setRotation"@ != "setOrigin"@,
        "translate"@ != "<init>"@,
        "translate"@ != "setOrigin"@,
        "translate"@ != "setRotation"@,
        "rotate"@ != "<init>"@,
        "rotate"@ != "setOrigin"@,
        "rotate"@ != "setRotation"@,
        "rotate"@ != "translate"@,
        "setRegion"@ != "<init>"@,
        "setRegion"@ != "setOrigin"@,
        "setRegion"@ != "setRotation"@,
        "setRegion"@ != "translate"@,
        "setRegion"@ != "rotate"@,
        "setTexture"@ != "<init>"@,
        "setTexture"@ != "setOrigin"@,
        "setTexture"@ != "setRotation"@,
        "setTexture"@ != "translate"@,
        "setTexture"@ != "rotate"@,
        "setTexture"@ != "setRegion"@,
        "setColor"@ != "<init>"@,
        "setColor"@ != "setOrigin"@,
        "setColor"@ != "setRotation"@,
        "setColor"@ != "translate"@,
        "setColor"@ != "rotate"@,
        "setColor"@ != "setRegion"@,
        "setColor"@ != "setTexture"@,
        "getColor"@ != "<init>"@,
        "getColor"@ != "setOrigin"@,
        "getColor"@ != "setRotation"@,
        "getColor"@ != "translate"@,
        "getColor"@ != "rotate"@,
        "getColor"@ != "setRegion"@,
        "getColor"@ != "setTexture"@,
        "getColor"@ != "setColor"@,
{
    reveal_strlit("<init>");
    reveal_strlit("setOrigin");
    reveal_strlit("setRotation");
    reveal_strlit("translate");
    reveal_strlit("rotate");
    reveal_strlit("setRegion");
    reveal_strlit("setTexture");
    reveal_strlit("setColor");
    reveal_strlit("getColor");
    assert("<init>"@.len() == 6);
    assert("setOrigin"@.len() == 9);
    assert("setRotation"@.len() == 11);
    assert("translate"@.len() == 9);
    assert("rotate"@.len() == 6);
    assert("setRegion"@.len() == 9);
    assert("setTexture"@.len() == 10);
    assert("setColor"@.len() == 8);
    assert("getColor"@.len() == 8);
    assert("translate"@[0] == 't' && "setOrigin"@[0] == 's');
    assert("rotate"@[0] == 'r' && "<init>"@[0] == '<');
    assert("setRegion"@[3] == 'R' && "setOrigin"@[3] == 'O');
    assert("setRegion"@[0] == 's' && "translate"@[0] == 't');
    assert("getColor"@[0] == 'g' && "setColor"@[0] == 's');
}

/// This name is none of the others.
proof fn lemma_batch_color()
    ensures
        "setColor"@ != "begin"@,
        "setColor"@ != "end"@,
        "setColor"@ != "dispose"@,
        "setColor"@ != "enableBlending"@,
        "setColor"@ != "disableBlending"@,
        "setColor"@ != "setProjectionMatrix"@,
        "setColor"@ != "setBlendFunction"@,
        "setColor"@ != "flush"@,
        "setColor"@ != "getColor"@,
{
    reveal_strlit("setColor");
    assert("setColor"@.len() == 8);
    reveal_strlit("begin");
    assert("begin"@.len() == 5);
    reveal_strlit("end");
    assert("end"@.len() == 3);
    reveal_strlit("dispose");
    assert("dispose"@.len() == 7);
    reveal_strlit("enableBlending");
    assert("enableBlending"@.len() == 14);
    reveal_strlit("disableBlending");
    assert("disableBlending"@.len() == 15);
    reveal_strlit("setProjectionMatrix");
    assert("setProjectionMatrix"@.len() == 19);
    reveal_strlit("setBlendFunction");
    assert("setBlendFunction"@.len() == 16);
    reveal_strlit("flush");
    assert("flush"@.len() == 5);
    reveal_strlit("getColor");
    assert("setColor"@[0] == 's' && "getColor"@[0] == 'g');
}

/// What is drawn has the colour that a sprite or a batch was given last: red, green, blue and
/// alpha in the order of the arguments. Before that it is white.
pub proof fn things_have_the_colour_that_was_set(
    w: WorldView,
    id: ObjectId,
    r: u32,
    g: u32,
    b: u32,
    a: u32,
)
    requires
        w.class_of(id) is Some,
    ensures
        ({
            let args = seq![
                ValueView::Object(id),
                ValueView::Float(r),
                ValueView::Float(g),
                ValueView::Float(b),
                ValueView::Float(a),
            ];
            let none = Seq::<AnswerView>::empty();
            &&& sprites::sprite(w, "setColor"@, args, none) == sprites::batch(
                w,
                "setColor"@,
                args,
                none,
            )
            &&& sprites::sprite(w, "setColor"@, args, none) matches Some((after, s)) && s is Ok && {
                let c = sprites::tint(after, Some(id));
                &&& c.r == gl::unit_byte(r)
                &&& c.g == gl::unit_byte(g)
                &&& c.b == gl::unit_byte(b)
                &&& c.a == gl::unit_byte(a)
            }
        }),
        w.field(id, "color"@) is None ==> sprites::tint(w, Some(id)) == (Rgba8 {
            r: 255,
            g: 255,
            b: 255,
            a: 255,
        }),
{
    let args = seq![
        ValueView::Object(id),
        ValueView::Float(r),
        ValueView::Float(g),
        ValueView::Float(b),
        ValueView::Float(a),
    ];
    lemma_sets_color(w, args);
    assert(value::at(args, 0) == Some(ValueView::Object(id)));
    assert(value::at(args, 1) == Some(ValueView::Float(r)));
    assert(value::at(args, 2) == Some(ValueView::Float(g)));
    assert(value::at(args, 3) == Some(ValueView::Float(b)));
    assert(value::at(args, 4) == Some(ValueView::Float(a)));
    let c = Rgba8 {
        r: gl::unit_byte(r),
        g: gl::unit_byte(g),
        b: gl::unit_byte(b),
        a: gl::unit_byte(a),
    };
    assert(sprites::color_named(w, args) == Ok::<Rgba8, ErrorView>(c));
    lemma_unpacked(c);
    let packed = ValueView::Int(color::packed(c));
    memory::a_field_holds_what_is_set(w, id, "color"@, packed, "color"@, id);
    assert(sprites::set_color(w, args).0 == w.with_field(id, "color"@, packed));
}

proof fn lemma_sets_color(w: WorldView, args: Seq<ValueView>)
    ensures
        sprites::sprite(w, "setColor"@, args, Seq::empty()) == Some(sprites::set_color(w, args)),
        sprites::batch(w, "setColor"@, args, Seq::empty()) == Some(sprites::set_color(w, args)),
{
    lemma_color_methods();
    lemma_batch_color();
}

proof fn lemma_unpacked(c: Rgba8)
    ensures
        color::unpacked(color::packed(c)) == c,
{
    color::lemma_bytes(c.r, c.g, c.b, c.a);
}

/// A colour object stands for its fields, each under its own name; a missing part is full.
pub proof fn a_colour_object_stands_for_its_parts(
    w: WorldView,
    id: ObjectId,
    named: ObjectId,
    r: u32,
    g: u32,
    b: u32,
    a: u32,
)
    requires
        w.field(named, "r"@) == Some(ValueView::Float(r)),
        w.field(named, "g"@) == Some(ValueView::Float(g)),
        w.field(named, "b"@) == Some(ValueView::Float(b)),
        w.field(named, "a"@) == Some(ValueView::Float(a)),
    ensures
        sprites::color_named(w, seq![ValueView::Object(id), ValueView::Object(named)]) matches Ok(c)
            && c.r == gl::unit_byte(r) && c.g == gl::unit_byte(g) && c.b == gl::unit_byte(b) && c.a
            == gl::unit_byte(a),
{
    let args = seq![ValueView::Object(id), ValueView::Object(named)];
    assert(value::at(args, 1) == Some(ValueView::Object(named)));
}

// Drawing.

/// This name is none of the others.
proof fn lemma_placed_draw()
    ensures
        "draw"@ != "begin"@,
        "draw"@ != "end"@,
        "draw"@ != "dispose"@,
        "draw"@ != "enableBlending"@,
        "draw"@ != "disableBlending"@,
        "draw"@ != "setProjectionMatrix"@,
        "draw"@ != "setBlendFunction"@,
        "draw"@ != "flush"@,
        "draw"@ != "getColor"@,
        "draw"@ != "setColor"@,
{
    reveal_strlit("draw");
    assert("draw"@.len() == 4);
    reveal_strlit("begin");
    assert("begin"@.len() == 5);
    reveal_strlit("end");
    assert("end"@.len() == 3);
    reveal_strlit("dispose");
    assert("dispose"@.len() == 7);
    reveal_strlit("enableBlending");
    assert("enableBlending"@.len() == 14);
    reveal_strlit("disableBlending");
    assert("disableBlending"@.len() == 15);
    reveal_strlit("setProjectionMatrix");
    assert("setProjectionMatrix"@.len() == 19);
    reveal_strlit("setBlendFunction");
    assert("setBlendFunction"@.len() == 16);
    reveal_strlit("flush");
    assert("flush"@.len() == 5);
    reveal_strlit("getColor");
    assert("getColor"@.len() == 8);
    reveal_strlit("setColor");
    assert("setColor"@.len() == 8);
}

/// These names are different.
proof fn lemma_placed_classes()
    ensures
        "Lcom/badlogic/gdx/graphics/Texture;"@ != "Lcom/badlogic/gdx/graphics/g2d/TextureAtlas;"@,
        "Lcom/badlogic/gdx/graphics/g2d/TextureRegion;"@ != "Lcom/badlogic/gdx/graphics/g2d/TextureAtlas;"@,
        "Lcom/badlogic/gdx/graphics/g2d/TextureRegion;"@ != "Lcom/badlogic/gdx/graphics/Texture;"@,
        "Lcom/badlogic/gdx/graphics/g2d/TextureAtlas$AtlasRegion;"@ != "Lcom/badlogic/gdx/graphics/g2d/TextureAtlas;"@,
        "Lcom/badlogic/gdx/graphics/g2d/TextureAtlas$AtlasRegion;"@ != "Lcom/badlogic/gdx/graphics/Texture;"@,
        "Lcom/badlogic/gdx/graphics/g2d/TextureAtlas$AtlasRegion;"@ != "Lcom/badlogic/gdx/graphics/g2d/TextureRegion;"@,
        "Lcom/badlogic/gdx/graphics/g2d/Sprite;"@ != "Lcom/badlogic/gdx/graphics/g2d/TextureAtlas;"@,
        "Lcom/badlogic/gdx/graphics/g2d/Sprite;"@ != "Lcom/badlogic/gdx/graphics/Texture;"@,
        "Lcom/badlogic/gdx/graphics/g2d/Sprite;"@ != "Lcom/badlogic/gdx/graphics/g2d/TextureRegion;"@,
        "Lcom/badlogic/gdx/graphics/g2d/Sprite;"@ != "Lcom/badlogic/gdx/graphics/g2d/TextureAtlas$AtlasRegion;"@,
        "Lcom/badlogic/gdx/graphics/g2d/SpriteBatch;"@ != "Lcom/badlogic/gdx/graphics/g2d/TextureAtlas;"@,
        "Lcom/badlogic/gdx/graphics/g2d/SpriteBatch;"@ != "Lcom/badlogic/gdx/graphics/Texture;"@,
        "Lcom/badlogic/gdx/graphics/g2d/SpriteBatch;"@ != "Lcom/badlogic/gdx/graphics/g2d/TextureRegion;"@,
        "Lcom/badlogic/gdx/graphics/g2d/SpriteBatch;"@ != "Lcom/badlogic/gdx/graphics/g2d/TextureAtlas$AtlasRegion;"@,
        "Lcom/badlogic/gdx/graphics/g2d/SpriteBatch;"@ != "Lcom/badlogic/gdx/graphics/g2d/Sprite;"@,
        "Lcom/badlogic/gdx/graphics/g2d/BitmapFont;"@ != "Lcom/badlogic/gdx/graphics/g2d/TextureAtlas;"@,
        "Lcom/badlogic/gdx/graphics/g2d/BitmapFont;"@ != "Lcom/badlogic/gdx/graphics/Texture;"@,
        "Lcom/badlogic/gdx/graphics/g2d/BitmapFont;"@ != "Lcom/badlogic/gdx/graphics/g2d/TextureRegion;"@,
        "Lcom/badlogic/gdx/graphics/g2d/BitmapFont;"@ != "Lcom/badlogic/gdx/graphics/g2d/TextureAtlas$AtlasRegion;"@,
        "Lcom/badlogic/gdx/graphics/g2d/BitmapFont;"@ != "Lcom/badlogic/gdx/graphics/g2d/Sprite;"@,
        "Lcom/badlogic/gdx/graphics/g2d/BitmapFont;"@ != "Lcom/badlogic/gdx/graphics/g2d/SpriteBatch;"@,
{
    reveal_strlit("Lcom/badlogic/gdx/graphics/g2d/TextureAtlas;");
    reveal_strlit("Lcom/badlogic/gdx/graphics/Texture;");
    reveal_strlit("Lcom/badlogic/gdx/graphics/g2d/TextureRegion;");
    reveal_strlit("Lcom/badlogic/gdx/graphics/g2d/TextureAtlas$AtlasRegion;");
    reveal_strlit("Lcom/badlogic/gdx/graphics/g2d/Sprite;");
    reveal_strlit("Lcom/badlogic/gdx/graphics/g2d/SpriteBatch;");
    reveal_strlit("Lcom/badlogic/gdx/graphics/g2d/BitmapFont;");
    assert("Lcom/badlogic/gdx/graphics/g2d/TextureAtlas;"@.len() == 44);
    assert("Lcom/badlogic/gdx/graphics/Texture;"@.len() == 35);
    assert("Lcom/badlogic/gdx/graphics/g2d/TextureRegion;"@.len() == 45);
    assert("Lcom/badlogic/gdx/graphics/g2d/TextureAtlas$AtlasRegion;"@.len() == 56);
    assert("Lcom/badlogic/gdx/graphics/g2d/Sprite;"@.len() == 38);
    assert("Lcom/badlogic/gdx/graphics/g2d/SpriteBatch;"@.len() == 43);
    assert("Lcom/badlogic/gdx/graphics/g2d/BitmapFont;"@.len() == 42);
}

/// Drawing with all parameters draws a thing at the place that the third and fourth argument say,
/// as large as the seventh and eighth, in the colour of the batch. It asks for the image of the
/// thing, and draws nothing where there is none.
pub proof fn a_batch_draws_where_all_parameters_say(
    w: WorldView,
    args: Seq<ValueView>,
    batch: ObjectId,
    thing: ObjectId,
    path: Seq<char>,
    x: u32,
    y: u32,
    width: u32,
    height: u32,
    size: (u32, u32),
)
    requires
        args.len() >= 10,
        args[0] == ValueView::Object(batch),
        args[1] == ValueView::Object(thing),
        args[2] == ValueView::Float(x),
        args[3] == ValueView::Float(y),
        args[6] == ValueView::Float(width),
        args[7] == ValueView::Float(height),
        w.field_text(thing, "path"@) == Some(path),
        w.field(thing, "region_x"@) is None,
    ensures
        ({
            let class_name = "Lcom/badlogic/gdx/graphics/g2d/SpriteBatch;"@;
            let given = seq![AnswerView::Size(Some(size))];
            let lacking = seq![AnswerView::Size(None)];
            &&& sprites::question(w, class_name, "draw"@, args, Seq::empty()) == Some(
                QueryView::Image(path),
            )
            &&& sprites::performed(w, class_name, "draw"@, args, lacking) == Some(
                (w, Ok::<ValueView, ErrorView>(ValueView::Void)),
            )
            &&& sprites::performed(w, class_name, "draw"@, args, given) matches Some((after, r))
                && r is Ok && after.effects.len() == w.effects.len() + 2 && after.effects[
                w.effects.len() as int
            ] == EffectView::UploadImage(path) && after == (WorldView {
                effects: after.effects,
                ..w
            }) && (after.effects.last() matches EffectView::DrawTexture { bounds, color }
                && bounds.x == x && bounds.y == y && bounds.width == width && bounds.height
                == height && color == sprites::tint(w, Some(batch)))
        }),
{
    lemma_placed_draw();
    lemma_placed_classes();
    let given = seq![AnswerView::Size(Some(size))];
    let lacking = seq![AnswerView::Size(None)];
    assert(host::size_in(given, 0) == Some(size));
    assert(host::size_in(lacking, 0) is None);
}

/// What has no image is drawn as a pale quadrangle: at the place that is given, as large as it is
/// said to be.
pub proof fn a_thing_without_an_image_is_a_quadrangle(
    w: WorldView,
    batch: ObjectId,
    x: u32,
    y: u32,
    width: u32,
    height: u32,
)
    requires
        forall|name: Seq<char>| #[trigger] w.field(batch, name) is None,
        w.class_of(batch) == Some("Lcom/badlogic/gdx/graphics/g2d/SpriteBatch;"@),
        0x3f80_0000 <= width < 0x7f80_0000,
        0x3f80_0000 <= height < 0x7f80_0000,
    ensures
        ({
            let class_name = "Lcom/badlogic/gdx/graphics/g2d/SpriteBatch;"@;
            let args = seq![
                ValueView::Object(batch),
                ValueView::Null,
                ValueView::Float(x),
                ValueView::Float(y),
                ValueView::Float(width),
                ValueView::Float(height),
            ];
            sprites::performed(w, class_name, "draw"@, args, Seq::empty()) matches Some((after, r))
                && r is Ok && after.effects.len() == w.effects.len() + 1 && (
            after.effects.last() matches EffectView::DrawQuad { bounds, color } && bounds.x == x
                && bounds.y == y && bounds.width == width && bounds.height == height && color
                == (Rgba8 { r: 220, g: 235, b: 240, a: 255 }))
        }),
{
    lemma_placed_draw();
    lemma_placed_classes();
    reveal(sprites::draw_thing);
    let args = seq![
        ValueView::Object(batch),
        ValueView::Null,
        ValueView::Float(x),
        ValueView::Float(y),
        ValueView::Float(width),
        ValueView::Float(height),
    ];
    assert(value::at(args, 0) == Some(ValueView::Object(batch)));
    assert(value::at(args, 1) == Some(ValueView::Null));
    assert(value::at(args, 2) == Some(ValueView::Float(x)));
    assert(value::at(args, 3) == Some(ValueView::Float(y)));
    assert(value::at(args, 4) == Some(ValueView::Float(width)));
    assert(value::at(args, 5) == Some(ValueView::Float(height)));
    assert(w.field(batch, "x"@) is None && w.field(batch, "y"@) is None);
    assert(w.field(batch, "width"@) is None && w.field(batch, "height"@) is None);
    assert(w.field(batch, "region_width"@) is None && w.field(batch, "region_height"@) is None);
    lemma_no_less(width);
    lemma_no_less(height);
}

proof fn lemma_no_less(b: u32)
    requires
        0x3f80_0000 <= b < 0x7f80_0000,
    ensures
        float::single_greater(b, 0x3f80_0000) == b,
{
    if b > 0x3f80_0000 {
        float::lemma_units_ordered(0x3f80_0000, b as nat, 23);
    }
}

} // verus!
