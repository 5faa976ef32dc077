//! Sprites, textures and the regions of an atlas: from the file to what is drawn.

use vstd::arithmetic::power2::*;
use vstd::prelude::*;

use crate::arith;
use crate::color;
use crate::error::ErrorView;
use crate::float;
use crate::gdx::gl;
use crate::gdx::sprites;
use crate::host;
use crate::host::{AnswerView, Bounds, Corners, EffectView, QueryView, RegionView};
use crate::laws::conversions;
use crate::laws::conversions::truncates;
use crate::laws::drawing;
use crate::laws::drawing::stretches;
use crate::laws::memory;
use crate::laws::rounding;
use crate::laws::rounding::{closest_single, finite_single};
use crate::value;
use crate::value::{ObjectId, ValueView};
use crate::world;
use crate::world::WorldView;

verus! {

/// These names are different.
pub proof fn lemma_field_names()
    ensures
        "path"@ != "asset_path"@,
        "region_x"@ != "asset_path"@,
        "region_x"@ != "path"@,
        "region_y"@ != "asset_path"@,
        "region_y"@ != "path"@,
        "region_y"@ != "region_x"@,
        "region_width"@ != "asset_path"@,
        "region_width"@ != "path"@,
        "region_width"@ != "region_x"@,
        "region_width"@ != "region_y"@,
        "region_height"@ != "asset_path"@,
        "region_height"@ != "path"@,
        "region_height"@ != "region_x"@,
        "region_height"@ != "region_y"@,
        "region_height"@ != "region_width"@,
        "width"@ != "asset_path"@,
        "width"@ != "path"@,
        "width"@ != "region_x"@,
        "width"@ != "region_y"@,
        "width"@ != "region_width"@,
        "width"@ != "region_height"@,
        "height"@ != "asset_path"@,
        "height"@ != "path"@,
        "height"@ != "region_x"@,
        "height"@ != "region_y"@,
        "height"@ != "region_width"@,
        "height"@ != "region_height"@,
        "height"@ != "width"@,
        "x"@ != "asset_path"@,
        "x"@ != "path"@,
        "x"@ != "region_x"@,
        "x"@ != "region_y"@,
        "x"@ != "region_width"@,
        "x"@ != "region_height"@,
        "x"@ != "width"@,
        "x"@ != "height"@,
        "y"@ != "asset_path"@,
        "y"@ != "path"@,
        "y"@ != "region_x"@,
        "y"@ != "region_y"@,
        "y"@ != "region_width"@,
        "y"@ != "region_height"@,
        "y"@ != "width"@,
        "y"@ != "height"@,
        "y"@ != "x"@,
        "color"@ != "asset_path"@,
        "color"@ != "path"@,
        "color"@ != "region_x"@,
        "color"@ != "region_y"@,
        "color"@ != "region_width"@,
        "color"@ != "region_height"@,
        "color"@ != "width"@,
        "color"@ != "height"@,
        "color"@ != "x"@,
        "color"@ != "y"@,
        "scale_x"@ != "asset_path"@,
        "scale_x"@ != "path"@,
        "scale_x"@ != "region_x"@,
        "scale_x"@ != "region_y"@,
        "scale_x"@ != "region_width"@,
        "scale_x"@ != "region_height"@,
        "scale_x"@ != "width"@,
        "scale_x"@ != "height"@,
        "scale_x"@ != "x"@,
        "scale_x"@ != "y"@,
        "scale_x"@ != "color"@,
        "scale_y"@ != "asset_path"@,
        "scale_y"@ != "path"@,
        "scale_y"@ != "region_x"@,
        "scale_y"@ != "region_y"@,
        "scale_y"@ != "region_width"@,
        "scale_y"@ != "region_height"@,
        "scale_y"@ != "width"@,
        "scale_y"@ != "height"@,
        "scale_y"@ != "x"@,
        "scale_y"@ != "y"@,
        "scale_y"@ != "color"@,
        "scale_y"@ != "scale_x"@,
{
    reveal_strlit("asset_path");
    reveal_strlit("path");
    reveal_strlit("region_x");
    reveal_strlit("region_y");
    reveal_strlit("region_width");
    reveal_strlit("region_height");
    reveal_strlit("width");
    reveal_strlit("height");
    reveal_strlit("x");
    reveal_strlit("y");
    reveal_strlit("color");
    reveal_strlit("scale_x");
    reveal_strlit("scale_y");
    assert("asset_path"@.len() == 10);
    assert("path"@.len() == 4);
    assert("region_x"@.len() == 8);
    assert("region_y"@.len() == 8);
    assert("region_width"@.len() == 12);
    assert("region_height"@.len() == 13);
    assert("width"@.len() == 5);
    assert("height"@.len() == 6);
    assert("x"@.len() == 1);
    assert("y"@.len() == 1);
    assert("color"@.len() == 5);
    assert("scale_x"@.len() == 7);
    assert("scale_y"@.len() == 7);
    assert("region_y"@[7] == 'y' && "region_x"@[7] == 'x');
    assert("y"@[0] == 'y' && "x"@[0] == 'x');
    assert("color"@[0] == 'c' && "width"@[0] == 'w');
    assert("scale_y"@[6] == 'y' && "scale_x"@[6] == 'x');
}

/// This name is none of the others.
proof fn lemma_sprite_class()
    ensures
        "Lcom/badlogic/gdx/graphics/g2d/Sprite;"@ != "Lcom/badlogic/gdx/graphics/g2d/TextureAtlas;"@,
        "Lcom/badlogic/gdx/graphics/g2d/Sprite;"@ != "Lcom/badlogic/gdx/graphics/Texture;"@,
        "Lcom/badlogic/gdx/graphics/g2d/Sprite;"@ != "Lcom/badlogic/gdx/graphics/g2d/TextureRegion;"@,
        "Lcom/badlogic/gdx/graphics/g2d/Sprite;"@ != "Lcom/badlogic/gdx/graphics/g2d/TextureAtlas$AtlasRegion;"@,
{
    reveal_strlit("Lcom/badlogic/gdx/graphics/g2d/Sprite;");
    assert("Lcom/badlogic/gdx/graphics/g2d/Sprite;"@.len() == 38);
    reveal_strlit("Lcom/badlogic/gdx/graphics/g2d/TextureAtlas;");
    assert("Lcom/badlogic/gdx/graphics/g2d/TextureAtlas;"@.len() == 44);
    reveal_strlit("Lcom/badlogic/gdx/graphics/Texture;");
    assert("Lcom/badlogic/gdx/graphics/Texture;"@.len() == 35);
    reveal_strlit("Lcom/badlogic/gdx/graphics/g2d/TextureRegion;");
    assert("Lcom/badlogic/gdx/graphics/g2d/TextureRegion;"@.len() == 45);
    reveal_strlit("Lcom/badlogic/gdx/graphics/g2d/TextureAtlas$AtlasRegion;");
    assert("Lcom/badlogic/gdx/graphics/g2d/TextureAtlas$AtlasRegion;"@.len() == 56);
}

/// This name is none of the others.
proof fn lemma_batch_class()
    ensures
        "Lcom/badlogic/gdx/graphics/g2d/SpriteBatch;"@ != "Lcom/badlogic/gdx/graphics/g2d/TextureAtlas;"@,
        "Lcom/badlogic/gdx/graphics/g2d/SpriteBatch;"@ != "Lcom/badlogic/gdx/graphics/Texture;"@,
        "Lcom/badlogic/gdx/graphics/g2d/SpriteBatch;"@ != "Lcom/badlogic/gdx/graphics/g2d/TextureRegion;"@,
        "Lcom/badlogic/gdx/graphics/g2d/SpriteBatch;"@ != "Lcom/badlogic/gdx/graphics/g2d/TextureAtlas$AtlasRegion;"@,
        "Lcom/badlogic/gdx/graphics/g2d/SpriteBatch;"@ != "Lcom/badlogic/gdx/graphics/g2d/Sprite;"@,
{
    reveal_strlit("Lcom/badlogic/gdx/graphics/g2d/SpriteBatch;");
    assert("Lcom/badlogic/gdx/graphics/g2d/SpriteBatch;"@.len() == 43);
    reveal_strlit("Lcom/badlogic/gdx/graphics/g2d/TextureAtlas;");
    assert("Lcom/badlogic/gdx/graphics/g2d/TextureAtlas;"@.len() == 44);
    reveal_strlit("Lcom/badlogic/gdx/graphics/Texture;");
    assert("Lcom/badlogic/gdx/graphics/Texture;"@.len() == 35);
    reveal_strlit("Lcom/badlogic/gdx/graphics/g2d/TextureRegion;");
    assert("Lcom/badlogic/gdx/graphics/g2d/TextureRegion;"@.len() == 45);
    reveal_strlit("Lcom/badlogic/gdx/graphics/g2d/TextureAtlas$AtlasRegion;");
    assert("Lcom/badlogic/gdx/graphics/g2d/TextureAtlas$AtlasRegion;"@.len() == 56);
    reveal_strlit("Lcom/badlogic/gdx/graphics/g2d/Sprite;");
    assert("Lcom/badlogic/gdx/graphics/g2d/Sprite;"@.len() == 38);
}

/// This name is none of the others.
proof fn lemma_find_region()
    ensures
        "findRegion"@ != "<init>"@,
{
    reveal_strlit("findRegion");
    assert("findRegion"@.len() == 10);
    reveal_strlit("<init>");
    assert("<init>"@.len() == 6);
}

/// This name is none of the others.
proof fn lemma_create_sprite()
    ensures
        "createSprite"@ != "<init>"@,
        "createSprite"@ != "findRegion"@,
        "createSprite"@ != "findRegions"@,
{
    reveal_strlit("createSprite");
    assert("createSprite"@.len() == 12);
    reveal_strlit("<init>");
    assert("<init>"@.len() == 6);
    reveal_strlit("findRegion");
    assert("findRegion"@.len() == 10);
    reveal_strlit("findRegions");
    assert("findRegions"@.len() == 11);
}

/// This name is none of the others.
proof fn lemma_draw()
    ensures
        "draw"@ != "<init>"@,
        "draw"@ != "setOrigin"@,
        "draw"@ != "setRotation"@,
        "draw"@ != "translate"@,
        "draw"@ != "rotate"@,
        "draw"@ != "setRegion"@,
        "draw"@ != "setTexture"@,
        "draw"@ != "setColor"@,
        "draw"@ != "setPosition"@,
        "draw"@ != "setSize"@,
        "draw"@ != "setBounds"@,
        "draw"@ != "setScale"@,
        "draw"@ != "getX"@,
        "draw"@ != "getY"@,
        "draw"@ != "getWidth"@,
        "draw"@ != "getHeight"@,
        "draw"@ != "getRotation"@,
        "draw"@ != "getScaleX"@,
        "draw"@ != "getScaleY"@,
        "draw"@ != "getColor"@,
{
    reveal_strlit("draw");
    assert("draw"@.len() == 4);
    reveal_strlit("<init>");
    assert("<init>"@.len() == 6);
    reveal_strlit("setOrigin");
    assert("setOrigin"@.len() == 9);
    reveal_strlit("setRotation");
    assert("setRotation"@.len() == 11);
    reveal_strlit("translate");
    assert("translate"@.len() == 9);
    reveal_strlit("rotate");
    assert("rotate"@.len() == 6);
    reveal_strlit("setRegion");
    assert("setRegion"@.len() == 9);
    reveal_strlit("setTexture");
    assert("setTexture"@.len() == 10);
    reveal_strlit("setColor");
    assert("setColor"@.len() == 8);
    reveal_strlit("setPosition");
    assert("setPosition"@.len() == 11);
    reveal_strlit("setSize");
    assert("setSize"@.len() == 7);
    reveal_strlit("setBounds");
    assert("setBounds"@.len() == 9);
    reveal_strlit("setScale");
    assert("setScale"@.len() == 8);
    reveal_strlit("getX");
    assert("draw"@[0] == 'd' && "getX"@[0] == 'g');
    reveal_strlit("getY");
    assert("draw"@[0] == 'd' && "getY"@[0] == 'g');
    reveal_strlit("getWidth");
    assert("getWidth"@.len() == 8);
    reveal_strlit("getHeight");
    assert("getHeight"@.len() == 9);
    reveal_strlit("getRotation");
    assert("getRotation"@.len() == 11);
    reveal_strlit("getScaleX");
    assert("getScaleX"@.len() == 9);
    reveal_strlit("getScaleY");
    assert("getScaleY"@.len() == 9);
    reveal_strlit("getColor");
    assert("getColor"@.len() == 8);
}

/// This name is none of the others.
proof fn lemma_scale_method()
    ensures
        "setScale"@ != "<init>"@,
        "setScale"@ != "setOrigin"@,
        "setScale"@ != "setRotation"@,
        "setScale"@ != "translate"@,
        "setScale"@ != "rotate"@,
        "setScale"@ != "setRegion"@,
        "setScale"@ != "setTexture"@,
        "setScale"@ != "setColor"@,
        "setScale"@ != "setPosition"@,
        "setScale"@ != "setSize"@,
        "setScale"@ != "setBounds"@,
{
    reveal_strlit("setScale");
    assert("setScale"@.len() == 8);
    reveal_strlit("<init>");
    assert("<init>"@.len() == 6);
    reveal_strlit("setOrigin");
    assert("setOrigin"@.len() == 9);
    reveal_strlit("setRotation");
    assert("setRotation"@.len() == 11);
    reveal_strlit("translate");
    assert("translate"@.len() == 9);
    reveal_strlit("rotate");
    assert("rotate"@.len() == 6);
    reveal_strlit("setRegion");
    assert("setRegion"@.len() == 9);
    reveal_strlit("setTexture");
    assert("setTexture"@.len() == 10);
    reveal_strlit("setColor");
    assert("setScale"@[3] == 'S' && "setColor"@[3] == 'C');
    reveal_strlit("setPosition");
    assert("setPosition"@.len() == 11);
    reveal_strlit("setSize");
    assert("setSize"@.len() == 7);
    reveal_strlit("setBounds");
    assert("setBounds"@.len() == 9);
}

/// This name is none of the others.
proof fn lemma_position_method()
    ensures
        "setPosition"@ != "<init>"@,
        "setPosition"@ != "setOrigin"@,
        "setPosition"@ != "setRotation"@,
        "setPosition"@ != "translate"@,
        "setPosition"@ != "rotate"@,
        "setPosition"@ != "setRegion"@,
        "setPosition"@ != "setTexture"@,
        "setPosition"@ != "setColor"@,
{
    reveal_strlit("setPosition");
    assert("setPosition"@.len() == 11);
    reveal_strlit("<init>");
    assert("<init>"@.len() == 6);
    reveal_strlit("setOrigin");
    assert("setOrigin"@.len() == 9);
    reveal_strlit("setRotation");
    assert("setPosition"@[3] == 'P' && "setRotation"@[3] == 'R');
    reveal_strlit("translate");
    assert("translate"@.len() == 9);
    reveal_strlit("rotate");
    assert("rotate"@.len() == 6);
    reveal_strlit("setRegion");
    assert("setRegion"@.len() == 9);
    reveal_strlit("setTexture");
    assert("setTexture"@.len() == 10);
    reveal_strlit("setColor");
    assert("setColor"@.len() == 8);
}

/// This name is none of the others.
proof fn lemma_size_method()
    ensures
        "setSize"@ != "<init>"@,
        "setSize"@ != "setOrigin"@,
        "setSize"@ != "setRotation"@,
        "setSize"@ != "translate"@,
        "setSize"@ != "rotate"@,
        "setSize"@ != "setRegion"@,
        "setSize"@ != "setTexture"@,
        "setSize"@ != "setColor"@,
        "setSize"@ != "setPosition"@,
{
    reveal_strlit("setSize");
    assert("setSize"@.len() == 7);
    reveal_strlit("<init>");
    assert("<init>"@.len() == 6);
    reveal_strlit("setOrigin");
    assert("setOrigin"@.len() == 9);
    reveal_strlit("setRotation");
    assert("setRotation"@.len() == 11);
    reveal_strlit("translate");
    assert("translate"@.len() == 9);
    reveal_strlit("rotate");
    assert("rotate"@.len() == 6);
    reveal_strlit("setRegion");
    assert("setRegion"@.len() == 9);
    reveal_strlit("setTexture");
    assert("setTexture"@.len() == 10);
    reveal_strlit("setColor");
    assert("setColor"@.len() == 8);
    reveal_strlit("setPosition");
    assert("setPosition"@.len() == 11);
}

/// This name is none of the others.
proof fn lemma_get_x()
    ensures
        "getX"@ != "<init>"@,
        "getX"@ != "setOrigin"@,
        "getX"@ != "setRotation"@,
        "getX"@ != "translate"@,
        "getX"@ != "rotate"@,
        "getX"@ != "setRegion"@,
        "getX"@ != "setTexture"@,
        "getX"@ != "setColor"@,
        "getX"@ != "setPosition"@,
        "getX"@ != "setSize"@,
        "getX"@ != "setBounds"@,
        "getX"@ != "setScale"@,
{
    reveal_strlit("getX");
    assert("getX"@.len() == 4);
    reveal_strlit("<init>");
    assert("<init>"@.len() == 6);
    reveal_strlit("setOrigin");
    assert("setOrigin"@.len() == 9);
    reveal_strlit("setRotation");
    assert("setRotation"@.len() == 11);
    reveal_strlit("translate");
    assert("translate"@.len() == 9);
    reveal_strlit("rotate");
    assert("rotate"@.len() == 6);
    reveal_strlit("setRegion");
    assert("setRegion"@.len() == 9);
    reveal_strlit("setTexture");
    assert("setTexture"@.len() == 10);
    reveal_strlit("setColor");
    assert("setColor"@.len() == 8);
    reveal_strlit("setPosition");
    assert("setPosition"@.len() == 11);
    reveal_strlit("setSize");
    assert("setSize"@.len() == 7);
    reveal_strlit("setBounds");
    assert("setBounds"@.len() == 9);
    reveal_strlit("setScale");
    assert("setScale"@.len() == 8);
}

/// This name is none of the others.
proof fn lemma_get_y()
    ensures
        "getY"@ != "<init>"@,
        "getY"@ != "setOrigin"@,
        "getY"@ != "setRotation"@,
        "getY"@ != "translate"@,
        "getY"@ != "rotate"@,
        "getY"@ != "setRegion"@,
        "getY"@ != "setTexture"@,
        "getY"@ != "setColor"@,
        "getY"@ != "setPosition"@,
        "getY"@ != "setSize"@,
        "getY"@ != "setBounds"@,
        "getY"@ != "setScale"@,
        "getY"@ != "getX"@,
{
    reveal_strlit("getY");
    assert("getY"@.len() == 4);
    reveal_strlit("<init>");
    assert("<init>"@.len() == 6);
    reveal_strlit("setOrigin");
    assert("setOrigin"@.len() == 9);
    reveal_strlit("setRotation");
    assert("setRotation"@.len() == 11);
    reveal_strlit("translate");
    assert("translate"@.len() == 9);
    reveal_strlit("rotate");
    assert("rotate"@.len() == 6);
    reveal_strlit("setRegion");
    assert("setRegion"@.len() == 9);
    reveal_strlit("setTexture");
    assert("setTexture"@.len() == 10);
    reveal_strlit("setColor");
    assert("setColor"@.len() == 8);
    reveal_strlit("setPosition");
    assert("setPosition"@.len() == 11);
    reveal_strlit("setSize");
    assert("setSize"@.len() == 7);
    reveal_strlit("setBounds");
    assert("setBounds"@.len() == 9);
    reveal_strlit("setScale");
    assert("setScale"@.len() == 8);
    reveal_strlit("getX");
    assert("getY"@[3] == 'Y' && "getX"@[3] == 'X');
}

/// This name is none of the others.
proof fn lemma_get_width()
    ensures
        "getWidth"@ != "<init>"@,
        "getWidth"@ != "setOrigin"@,
        "getWidth"@ != "setRotation"@,
        "getWidth"@ != "translate"@,
        "getWidth"@ != "rotate"@,
        "getWidth"@ != "setRegion"@,
        "getWidth"@ != "setTexture"@,
        "getWidth"@ != "setColor"@,
        "getWidth"@ != "setPosition"@,
        "getWidth"@ != "setSize"@,
        "getWidth"@ != "setBounds"@,
        "getWidth"@ != "setScale"@,
        "getWidth"@ != "getX"@,
        "getWidth"@ != "getY"@,
{
    reveal_strlit("getWidth");
    assert("getWidth"@.len() == 8);
    reveal_strlit("<init>");
    assert("<init>"@.len() == 6);
    reveal_strlit("setOrigin");
    assert("setOrigin"@.len() == 9);
    reveal_strlit("setRotation");
    assert("setRotation"@.len() == 11);
    reveal_strlit("translate");
    assert("translate"@.len() == 9);
    reveal_strlit("rotate");
    assert("rotate"@.len() == 6);
    reveal_strlit("setRegion");
    assert("setRegion"@.len() == 9);
    reveal_strlit("setTexture");
    assert("setTexture"@.len() == 10);
    reveal_strlit("setColor");
    assert("getWidth"@[0] == 'g' && "setColor"@[0] == 's');
    reveal_strlit("setPosition");
    assert("setPosition"@.len() == 11);
    reveal_strlit("setSize");
    assert("setSize"@.len() == 7);
    reveal_strlit("setBounds");
    assert("setBounds"@.len() == 9);
    reveal_strlit("setScale");
    assert("getWidth"@[0] == 'g' && "setScale"@[0] == 's');
    reveal_strlit("getX");
    assert("getX"@.len() == 4);
    reveal_strlit("getY");
    assert("getY"@.len() == 4);
}

/// This name is none of the others.
proof fn lemma_get_height()
    ensures
        "getHeight"@ != "<init>"@,
        "getHeight"@ != "setOrigin"@,
        "getHeight"@ != "setRotation"@,
        "getHeight"@ != "translate"@,
        "getHeight"@ != "rotate"@,
        "getHeight"@ != "setRegion"@,
        "getHeight"@ != "setTexture"@,
        "getHeight"@ != "setColor"@,
        "getHeight"@ != "setPosition"@,
        "getHeight"@ != "setSize"@,
        "getHeight"@ != "setBounds"@,
        "getHeight"@ != "setScale"@,
        "getHeight"@ != "getX"@,
        "getHeight"@ != "getY"@,
        "getHeight"@ != "getWidth"@,
{
    reveal_strlit("getHeight");
    assert("getHeight"@.len() == 9);
    reveal_strlit("<init>");
    assert("<init>"@.len() == 6);
    reveal_strlit("setOrigin");
    assert("getHeight"@[0] == 'g' && "setOrigin"@[0] == 's');
    reveal_strlit("setRotation");
    assert("setRotation"@.len() == 11);
    reveal_strlit("translate");
    assert("getHeight"@[0] == 'g' && "translate"@[0] == 't');
    reveal_strlit("rotate");
    assert("rotate"@.len() == 6);
    reveal_strlit("setRegion");
    assert("getHeight"@[0] == 'g' && "setRegion"@[0] == 's');
    reveal_strlit("setTexture");
    assert("setTexture"@.len() == 10);
    reveal_strlit("setColor");
    assert("setColor"@.len() == 8);
    reveal_strlit("setPosition");
    assert("setPosition"@.len() == 11);
    reveal_strlit("setSize");
    assert("setSize"@.len() == 7);
    reveal_strlit("setBounds");
    assert("getHeight"@[0] == 'g' && "setBounds"@[0] == 's');
    reveal_strlit("setScale");
    assert("setScale"@.len() == 8);
    reveal_strlit("getX");
    assert("getX"@.len() == 4);
    reveal_strlit("getY");
    assert("getY"@.len() == 4);
    reveal_strlit("getWidth");
    assert("getWidth"@.len() == 8);
}

/// This name is none of the others.
proof fn lemma_batch_draw()
    ensures
        "draw"@ != "getColor"@,
        "draw"@ != "begin"@,
        "draw"@ != "end"@,
        "draw"@ != "dispose"@,
        "draw"@ != "enableBlending"@,
        "draw"@ != "disableBlending"@,
        "draw"@ != "setProjectionMatrix"@,
        "draw"@ != "setBlendFunction"@,
        "draw"@ != "flush"@,
        "draw"@ != "setColor"@,
{
    reveal_strlit("draw");
    assert("draw"@.len() == 4);
    reveal_strlit("getColor");
    assert("getColor"@.len() == 8);
    reveal_strlit("begin");
    assert("begin"@.len() == 5);
    reveal_strlit("end");
    assert("end"@.len() == 3);
    reveal_strlit("dispose");
    assert("dispose"@.len() == 7);
    reveal_strlit("enableBlending");
    assert("enableBlending"@.len() == 14);
    reveal_strlit("disableBlending");
    assert("disableBlending"@.len() == 15);
    reveal_strlit("setProjectionMatrix");
    assert("setProjectionMatrix"@.len() == 19);
    reveal_strlit("setBlendFunction");
    assert("setBlendFunction"@.len() == 16);
    reveal_strlit("flush");
    assert("flush"@.len() == 5);
    reveal_strlit("setColor");
    assert("setColor"@.len() == 8);
}

/// A field that is set is read; every other field of the object stays as it is.
pub proof fn lemma_set(id: ObjectId)
    ensures
        forall|w: WorldView, name: Seq<char>, v: ValueView, other: Seq<char>|
            w.class_of(id) is Some ==> #[trigger] w.with_field(id, name, v).field(id, other)
                == if other == name {
                Some(v)
            } else {
                w.field(id, other)
            },
        forall|w: WorldView, name: Seq<char>, v: ValueView| #[trigger]
            w.with_field(id, name, v).class_of(id) == w.class_of(id),
        forall|w: WorldView, name: Seq<char>, v: ValueView, o: ObjectId| #[trigger]
            w.with_field(id, name, v).object(o) == w.object(o) || o == id,
{
    assert forall|w: WorldView, name: Seq<char>, v: ValueView, other: Seq<char>|
        w.class_of(id) is Some implies #[trigger] w.with_field(id, name, v).field(id, other)
        == if other == name {
        Some(v)
    } else {
        w.field(id, other)
    } by {
        memory::a_field_holds_what_is_set(w, id, name, v, other, id);
    }
}

/// Where a region lies on its page, as fields of an object.
pub open spec fn shows_region(w: WorldView, id: ObjectId, r: RegionView) -> bool {
    &&& w.field(id, "region_x"@) == Some(ValueView::Int(r.x as i32))
    &&& w.field(id, "region_y"@) == Some(ValueView::Int(r.y as i32))
    &&& w.field(id, "region_width"@) == Some(ValueView::Int(r.width as i32))
    &&& w.field(id, "region_height"@) == Some(ValueView::Int(r.height as i32))
    &&& w.field(id, "asset_path"@) == Some(ValueView::String(r.page))
}

/// Searching an atlas asks for the region of that name, and gives a new region that lies where the
/// answer says.
pub proof fn a_region_lies_where_the_atlas_says(
    w: WorldView,
    atlas: ObjectId,
    name: Seq<char>,
    path: Seq<char>,
    r: RegionView,
)
    requires
        w.heap.len() < u32::MAX,
        w.field_text(atlas, "path"@) == Some(path),
    ensures
        ({
            let class_name = "Lcom/badlogic/gdx/graphics/g2d/TextureAtlas;"@;
            let args = seq![ValueView::Object(atlas), ValueView::String(name)];
            let answers = seq![AnswerView::Region(Some(r))];
            let id = w.heap.len() as ObjectId;
            &&& sprites::question(w, class_name, "findRegion"@, args, Seq::empty()) == Some(
                QueryView::Region { atlas: path, name },
            )
            &&& sprites::performed(w, class_name, "findRegion"@, args, answers) matches Some(
                (after, result),
            ) && result == Ok::<ValueView, ErrorView>(ValueView::Object(id)) && shows_region(
                after,
                id,
                r,
            ) && after.heap.len() == w.heap.len() + 1
        }),
{
    lemma_field_names();
    lemma_find_region();
    let args = seq![ValueView::Object(atlas), ValueView::String(name)];
    let answers = seq![AnswerView::Region(Some(r))];
    let id = w.fresh();
    assert(value::at(args, 0) == Some(ValueView::Object(atlas)));
    assert(value::at(args, 1) == Some(ValueView::String(name)));
    assert(host::region_in(answers) == Some(r));
    lemma_set(id);
    let made = w.with_object(
        world::instance_of("Lcom/badlogic/gdx/graphics/g2d/TextureAtlas$AtlasRegion;"@),
    );
    assert(made.class_of(id) is Some);
    let w1 = made.with_field(id, "asset_path"@, ValueView::String(r.page));
    let w2 = w1.with_field(id, "region_x"@, ValueView::Int(r.x as i32));
    let w3 = w2.with_field(id, "region_y"@, ValueView::Int(r.y as i32));
    let w4 = w3.with_field(id, "region_width"@, ValueView::Int(r.width as i32));
    let w5 = w4.with_field(id, "region_height"@, ValueView::Int(r.height as i32));
    assert(sprites::find_region(w, args, answers).0 == w5);
    assert(w1.class_of(id) is Some && w2.class_of(id) is Some);
    assert(w3.class_of(id) is Some && w4.class_of(id) is Some);
}

/// The drawable fields of a thing that is apart from what it takes them from.
pub proof fn lemma_copied(w: WorldView, source: ObjectId, id: ObjectId, name: Seq<char>)
    requires
        w.class_of(id) is Some,
        source != id,
    ensures
        ({
            let after = w.copied_drawable(source, id);
            &&& after.class_of(id) == w.class_of(id)
            &&& after.object(source) == w.object(source)
            &&& after.heap.len() == w.heap.len()
            &&& name == "x"@ || name == "y"@ ==> after.field(id, name) == w.field(id, name)
            &&& sprites::drawable_fields().contains(name) ==> after.field(id, name) == match w.field(
                source,
                name,
            ) {
                Some(v) => Some(v),
                None => w.field(id, name),
            }
        }),
{
    lemma_field_names();
    reveal(WorldView::copied_drawable);
    let a = w.copied_field(source, id, "asset_path"@);
    let b = a.copied_field(source, id, "path"@);
    let c = b.copied_field(source, id, "region_x"@);
    let d = c.copied_field(source, id, "region_y"@);
    let e = d.copied_field(source, id, "region_width"@);
    let f = e.copied_field(source, id, "region_height"@);
    let g = f.copied_field(source, id, "width"@);
    let h = g.copied_field(source, id, "height"@);
    assert(w.copied_drawable(source, id) == h);
    lemma_one_copied(w, source, id, "asset_path"@, name);
    lemma_one_copied(a, source, id, "path"@, name);
    lemma_one_copied(b, source, id, "region_x"@, name);
    lemma_one_copied(c, source, id, "region_y"@, name);
    lemma_one_copied(d, source, id, "region_width"@, name);
    lemma_one_copied(e, source, id, "region_height"@, name);
    lemma_one_copied(f, source, id, "width"@, name);
    lemma_one_copied(g, source, id, "height"@, name);
}

proof fn lemma_one_copied(
    w: WorldView,
    source: ObjectId,
    id: ObjectId,
    name: Seq<char>,
    other: Seq<char>,
)
    requires
        w.class_of(id) is Some,
        source != id,
    ensures
        ({
            let after = w.copied_field(source, id, name);
            &&& after.class_of(id) == w.class_of(id)
            &&& after.object(source) == w.object(source)
            &&& after.heap.len() == w.heap.len()
            &&& other != name ==> after.field(id, other) == w.field(id, other)
            &&& after.field(id, name) == match w.field(source, name) {
                Some(v) => Some(v),
                None => w.field(id, name),
            }
        }),
{
    lemma_set(id);
}

/// A sprite that an atlas makes of a region shows that region, as large as the region.
pub proof fn a_sprite_shows_its_region(
    w: WorldView,
    atlas: ObjectId,
    region: ObjectId,
    r: RegionView,
)
    requires
        w.heap.len() < u32::MAX,
        region < w.heap.len(),
        shows_region(w, region, r),
        w.class_of(region) is Some,
    ensures
        ({
            let class_name = "Lcom/badlogic/gdx/graphics/g2d/TextureAtlas;"@;
            let args = seq![ValueView::Object(atlas), ValueView::Object(region)];
            let id = w.heap.len() as ObjectId;
            &&& sprites::performed(w, class_name, "createSprite"@, args, Seq::empty()) matches Some(
                (after, result),
            ) && result == Ok::<ValueView, ErrorView>(ValueView::Object(id)) && shows_region(
                after,
                id,
                r,
            ) && after.class_of(id) == Some("Lcom/badlogic/gdx/graphics/g2d/Sprite;"@)
                && after.field_single(id, "width"@) == Some(
                float::int_as_single((r.width as i32) as int),
            ) && after.field_single(id, "height"@) == Some(
                float::int_as_single((r.height as i32) as int),
            ) && after.field(id, "x"@) is None && after.field(id, "y"@) is None
        }),
{
    lemma_field_names();
    lemma_create_sprite();
    let args = seq![ValueView::Object(atlas), ValueView::Object(region)];
    assert(value::at(args, 1) == Some(ValueView::Object(region)));
    let id = w.fresh();
    lemma_set(id);
    let made = w.with_object(world::instance_of("Lcom/badlogic/gdx/graphics/g2d/Sprite;"@));
    assert(made.object(region) == w.object(region));
    assert(made.class_of(id) == Some("Lcom/badlogic/gdx/graphics/g2d/Sprite;"@));
    assert forall|name: Seq<char>| #[trigger] made.field(id, name) is None by {};
    let h = made.copied_drawable(region, id);
    lemma_copied(made, region, id, "x"@);
    lemma_copied(made, region, id, "y"@);
    assert(sprites::drawable_fields()[0] == "asset_path"@);
    sprites::a_drawable_takes_over_the_fields(made, region, id, 0);
    sprites::a_drawable_takes_over_the_fields(made, region, id, 2);
    sprites::a_drawable_takes_over_the_fields(made, region, id, 3);
    sprites::a_drawable_takes_over_the_fields(made, region, id, 4);
    sprites::a_drawable_takes_over_the_fields(made, region, id, 5);
    assert(made.field(region, "region_width"@) == w.field(region, "region_width"@));
    assert(shows_region(h, id, r));
    assert(h.class_of(id) is Some);
    let across = float::int_as_single((r.width as i32) as int);
    let wide = h.with_field(id, "width"@, ValueView::Float(across));
    assert(wide.object(region) == w.object(region));
}

/// Whether corners mark a part of an image: each, times the image's size, is a side of the part.
pub open spec fn marks(c: Corners, r: RegionView, width: u32, height: u32) -> bool {
    let one = pow2(149) as int;
    &&& closest_single(c.left, r.x * one, width as int)
    &&& closest_single(c.top, r.y * one, height as int)
    &&& closest_single(c.right, (r.x + r.width) * one, width as int)
    &&& closest_single(c.bottom, (r.y + r.height) * one, height as int)
}

/// A sprite is drawn where it is and as large as it is, from the part of its page that its region
/// takes, and in its colour. It is white where it has none.
pub proof fn a_sprite_is_drawn_from_its_region(
    w: WorldView,
    sprite: ObjectId,
    r: RegionView,
    x: u32,
    y: u32,
    across: u32,
    down: u32,
    width: u32,
    height: u32,
)
    requires
        w.class_of(sprite) is Some,
        w.field(sprite, "path"@) is None,
        shows_region(w, sprite, r),
        0 < r.width && 0 < r.height,
        r.x + r.width < 0x100_0000,
        r.y + r.height < 0x100_0000,
        0 < width < 0x100_0000,
        0 < height < 0x100_0000,
        w.field_single(sprite, "x"@) == Some(x),
        w.field_single(sprite, "y"@) == Some(y),
        w.field_single(sprite, "width"@) == Some(across),
        w.field_single(sprite, "height"@) == Some(down),
        0x3f80_0000 <= across < 0x7f80_0000,
        0x3f80_0000 <= down < 0x7f80_0000,
    ensures
        ({
            let class_name = "Lcom/badlogic/gdx/graphics/g2d/Sprite;"@;
            let args = seq![ValueView::Object(sprite)];
            let answers = seq![AnswerView::Size(Some((width, height)))];
            &&& sprites::question(w, class_name, "draw"@, args, Seq::empty()) == Some(
                QueryView::Image(r.page),
            )
            &&& sprites::performed(w, class_name, "draw"@, args, answers) matches Some(
                (after, result),
            ) && result == Ok::<ValueView, ErrorView>(ValueView::Void) && after == (WorldView {
                effects: after.effects,
                ..w
            }) && after.effects.len() == w.effects.len() + 2 && after.effects[
                w.effects.len() as int
            ] == EffectView::UploadImage(r.page) && (
            after.effects.last() matches EffectView::DrawRegion { bounds, corners, color } && bounds
                == (Bounds { x, y, width: across, height: down }) && marks(
                corners,
                r,
                width,
                height,
            ) && (w.field_int(sprite, "color"@) is None ==> color == color::opaque_of(
                255,
                255,
                255,
            )))
        }),
        ({
            let class_name = "Lcom/badlogic/gdx/graphics/g2d/Sprite;"@;
            let args = seq![ValueView::Object(sprite)];
            let answers = seq![AnswerView::Size(None)];
            sprites::performed(w, class_name, "draw"@, args, answers) == Some(
                (w, Ok::<ValueView, ErrorView>(ValueView::Void)),
            )
        }),
{
    lemma_sprite_class();
    lemma_draw();
    lemma_drawn(w, sprite, r, x, y, across, down, Some((width, height)));
    lemma_drawn(w, sprite, r, x, y, across, down, None);
    let args = seq![ValueView::Object(sprite)];
    assert(value::at(args, 0) == Some(ValueView::Object(sprite)));
    let one = pow2(149) as int;
    lemma_pixels(r.x);
    lemma_pixels(r.y);
    lemma_pixels(r.width);
    lemma_pixels(r.height);
    lemma_pixels((r.x + r.width) as u32);
    lemma_pixels((r.y + r.height) as u32);
    let region = region_bounds(r);
    assert((r.x + r.width) * one == r.x * one + r.width * one) by (nonlinear_arith);
    assert((r.y + r.height) * one == r.y * one + r.height * one) by (nonlinear_arith);
    drawing::the_corners_give_the_region_back(
        region,
        width,
        height,
        float::int_as_single((r.x + r.width) as int),
        float::int_as_single((r.y + r.height) as int),
    );
}

spec fn region_bounds(r: RegionView) -> Bounds {
    Bounds {
        x: float::int_as_single(r.x as int),
        y: float::int_as_single(r.y as int),
        width: float::int_as_single(r.width as int),
        height: float::int_as_single(r.height as int),
    }
}

proof fn lemma_drawn(
    w: WorldView,
    sprite: ObjectId,
    r: RegionView,
    x: u32,
    y: u32,
    across: u32,
    down: u32,
    size: Option<(u32, u32)>,
)
    requires
        w.class_of(sprite) is Some,
        w.field(sprite, "path"@) is None,
        shows_region(w, sprite, r),
        0 < r.width && 0 < r.height,
        r.x + r.width < 0x100_0000,
        r.y + r.height < 0x100_0000,
        w.field_single(sprite, "x"@) == Some(x),
        w.field_single(sprite, "y"@) == Some(y),
        w.field_single(sprite, "width"@) == Some(across),
        w.field_single(sprite, "height"@) == Some(down),
        0x3f80_0000 <= across < 0x7f80_0000,
        0x3f80_0000 <= down < 0x7f80_0000,
    ensures
        sprites::draw_sprite(w, sprite, seq![AnswerView::Size(size)]) == sprites::rendered(
            w,
            r.page,
            size,
            Bounds { x, y, width: across, height: down },
            Some(region_bounds(r)),
            sprites::tint(w, Some(sprite)),
        ),
        sprites::image_path(w, sprite) == Some(r.page),
        sprites::bounds_image(w, seq![ValueView::Object(sprite)]) is None,
{
    reveal(sprites::draw_sprite);
    let args = seq![ValueView::Object(sprite)];
    assert(value::at(args, 0) == Some(ValueView::Object(sprite)));
    assert(value::at(args, 1) is None);
    lemma_pixels(r.x);
    lemma_pixels(r.y);
    lemma_pixels(r.width);
    lemma_pixels(r.height);
    lemma_larger_than_one(across);
    lemma_larger_than_one(down);
    assert(host::size_in(seq![AnswerView::Size(size)], 0) == size);
    assert(sprites::source_region(w, Some(sprite)) == Some(region_bounds(r)));
    assert(sprites::bounds_image(w, args) is None);
}

/// A count that fits is worth so many ones, and above zero where it is.
pub proof fn lemma_pixels(n: u32)
    requires
        n < 0x100_0000,
    ensures
        finite_single(float::int_as_single(n as int)),
        float::single_worth(float::int_as_single(n as int)) == n * pow2(149),
        n > 0 ==> float::single_positive(float::int_as_single(n as int)),
        (n as i32) as int == n,
{
    conversions::a_short_integer_is_exact_as_a_single(n as int);
    conversions::an_integer_becomes_the_nearest_number(n as int);
    let b = float::int_as_single(n as int);
    if n > 0 {
        lemma_pow2_pos(149);
        assert(n * pow2(149) > 0) by (nonlinear_arith)
            requires
                n > 0,
                pow2(149) > 0,
        ;
        rounding::lemma_worthless(float::single_magnitude(b), 23);
    }
}

proof fn lemma_larger_than_one(b: u32)
    requires
        0x3f80_0000 <= b < 0x7f80_0000,
    ensures
        float::single_greater(b, 0x3f80_0000) == b,
{
    if b > 0x3f80_0000 {
        float::lemma_units_ordered(0x3f80_0000, b as nat, 23);
    }
}

/// A sprite is where and as large as it was set last, whichever method set it, and says so.
pub proof fn a_sprite_says_where_it_was_put(
    w: WorldView,
    sprite: ObjectId,
    a: u32,
    b: u32,
)
    requires
        w.class_of(sprite) is Some,
    ensures
        ({
            let class_name = "Lcom/badlogic/gdx/graphics/g2d/Sprite;"@;
            let me = seq![ValueView::Object(sprite)];
            let args = seq![ValueView::Object(sprite), ValueView::Float(a), ValueView::Float(b)];
            let none = Seq::<AnswerView>::empty();
            let gives = |v: WorldView, method: Seq<char>, n: u32|
                sprites::performed(v, class_name, method, me, none) == Some(
                    (v, Ok::<ValueView, ErrorView>(ValueView::Float(n))),
                );
            &&& sprites::performed(w, class_name, "setPosition"@, args, none) matches Some(
                (moved, r),
            ) && r is Ok && gives(moved, "getX"@, a) && gives(moved, "getY"@, b)
                && moved.field(sprite, "width"@) == w.field(sprite, "width"@) && moved.field(
                sprite,
                "height"@,
            ) == w.field(sprite, "height"@)
            &&& sprites::performed(w, class_name, "setSize"@, args, none) matches Some((sized, r))
                && r is Ok && gives(sized, "getWidth"@, a) && gives(sized, "getHeight"@, b)
                && sized.field(sprite, "x"@) == w.field(sprite, "x"@) && sized.field(sprite, "y"@)
                == w.field(sprite, "y"@)
        }),
{
    lemma_field_names();
    lemma_sprite_class();
    lemma_position_method();
    lemma_size_method();
    lemma_get_x();
    lemma_get_y();
    lemma_get_width();
    lemma_get_height();
    lemma_set(sprite);
    let me = seq![ValueView::Object(sprite)];
    let args = seq![ValueView::Object(sprite), ValueView::Float(a), ValueView::Float(b)];
    assert(value::at(me, 0) == Some(ValueView::Object(sprite)));
    assert(value::at(args, 0) == Some(ValueView::Object(sprite)));
    assert(value::at(args, 1) == Some(ValueView::Float(a)));
    assert(value::at(args, 2) == Some(ValueView::Float(b)));
    lemma_two_set(w, sprite, "x"@, "y"@, args, a, b);
    lemma_two_set(w, sprite, "width"@, "height"@, args, a, b);
}

proof fn lemma_two_set(
    w: WorldView,
    id: ObjectId,
    first: Seq<char>,
    second: Seq<char>,
    args: Seq<ValueView>,
    a: u32,
    b: u32,
)
    requires
        value::at(args, 1) == Some(ValueView::Float(a)),
        value::at(args, 2) == Some(ValueView::Float(b)),
    ensures
        sprites::set_singles(w, id, seq![first, second], args) == (
            w.with_field(id, first, ValueView::Float(a)).with_field(
                id,
                second,
                ValueView::Float(b),
            ),
            Ok::<ValueView, ErrorView>(ValueView::Void),
        ),
{
    let names = seq![first, second];
    let one = names.drop_last();
    assert(one =~= seq![first]);
    assert(one.drop_last() =~= Seq::<Seq<char>>::empty());
    assert(sprites::set_singles(w, id, one.drop_last(), args).0 == w);
    assert(sprites::set_singles(w, id, one, args).0 == w.with_field(
        id,
        first,
        ValueView::Float(a),
    ));
}

/// Scaling a sprite makes it as large as its region times the scale, whatever the scale's sign,
/// and it says the scale.
pub proof fn a_sprite_is_scaled_from_its_region(
    w: WorldView,
    sprite: ObjectId,
    width: u32,
    height: u32,
    x: u32,
    y: u32,
)
    requires
        w.class_of(sprite) is Some,
        w.field_single(sprite, "region_width"@) == Some(width),
        w.field_single(sprite, "region_height"@) == Some(height),
        finite_single(width) && finite_single(height) && finite_single(x) && finite_single(y),
    ensures
        ({
            let class_name = "Lcom/badlogic/gdx/graphics/g2d/Sprite;"@;
            let args = seq![ValueView::Object(sprite), ValueView::Float(x), ValueView::Float(y)];
            let done = sprites::performed(w, class_name, "setScale"@, args, Seq::empty());
            &&& done matches Some((after, r)) && r is Ok && after.field_single(sprite, "scale_x"@)
                == Some(x) && after.field_single(sprite, "scale_y"@) == Some(y) && (
            after.field_single(sprite, "width"@) matches Some(n) && stretches(
                n,
                width,
                x % 0x8000_0000,
            )) && (after.field_single(sprite, "height"@) matches Some(n) && stretches(
                n,
                height,
                y % 0x8000_0000,
            )) && after.field(sprite, "region_width"@) == w.field(sprite, "region_width"@)
                && after.field(sprite, "region_height"@) == w.field(sprite, "region_height"@)
                && after.field(sprite, "x"@) == w.field(sprite, "x"@) && after.field(sprite, "y"@)
                == w.field(sprite, "y"@)
        }),
{
    let args = seq![ValueView::Object(sprite), ValueView::Float(x), ValueView::Float(y)];
    let (p, q) = (float::single_magnitude(x) as u32, float::single_magnitude(y) as u32);
    assert(p == x % 0x8000_0000 && q == y % 0x8000_0000);
    lemma_scaled(w, sprite, width, height, x, y);
    lemma_set_scale(w, sprite, args, x, y);
    rounding::the_product_of_singles_is_closest(width, p);
    rounding::the_product_of_singles_is_closest(height, q);
}

proof fn lemma_set_scale(
    w: WorldView,
    sprite: ObjectId,
    args: Seq<ValueView>,
    x: u32,
    y: u32,
)
    requires
        args == seq![ValueView::Object(sprite), ValueView::Float(x), ValueView::Float(y)],
    ensures
        sprites::performed(
            w,
            "Lcom/badlogic/gdx/graphics/g2d/Sprite;"@,
            "setScale"@,
            args,
            Seq::empty(),
        ) == Some(
            (sprites::scaled(w, sprite, x, y), Ok::<ValueView, ErrorView>(ValueView::Void)),
        ),
{
    lemma_sprite_class();
    lemma_scale_method();
    assert(value::at(args, 0) == Some(ValueView::Object(sprite)));
    assert(value::at(args, 1) == Some(ValueView::Float(x)));
    assert(value::at(args, 2) == Some(ValueView::Float(y)));
    reveal(sprites::set_scale);
}

proof fn lemma_scaled(
    w: WorldView,
    sprite: ObjectId,
    width: u32,
    height: u32,
    x: u32,
    y: u32,
)
    requires
        w.class_of(sprite) is Some,
        w.field_single(sprite, "region_width"@) == Some(width),
        w.field_single(sprite, "region_height"@) == Some(height),
    ensures
        ({
            let after = sprites::scaled(w, sprite, x, y);
            let (p, q) = (float::single_magnitude(x) as u32, float::single_magnitude(y) as u32);
            &&& after.field(sprite, "scale_x"@) == Some(ValueView::Float(x))
            &&& after.field(sprite, "scale_y"@) == Some(ValueView::Float(y))
            &&& after.field(sprite, "width"@) == Some(
                ValueView::Float(arith::single_product(width, p)),
            )
            &&& after.field(sprite, "height"@) == Some(
                ValueView::Float(arith::single_product(height, q)),
            )
            &&& after.field(sprite, "x"@) == w.field(sprite, "x"@)
            &&& after.field(sprite, "y"@) == w.field(sprite, "y"@)
            &&& after.field(sprite, "region_width"@) == w.field(sprite, "region_width"@)
            &&& after.field(sprite, "region_height"@) == w.field(sprite, "region_height"@)
        }),
{
    lemma_field_names();
    lemma_set(sprite);
    let (p, q) = (float::single_magnitude(x) as u32, float::single_magnitude(y) as u32);
    let w1 = w.with_field(sprite, "scale_x"@, ValueView::Float(x));
    let w2 = w1.with_field(sprite, "scale_y"@, ValueView::Float(y));
    assert(w1.class_of(sprite) is Some && w2.class_of(sprite) is Some);
    assert(w2.field(sprite, "region_width"@) == w.field(sprite, "region_width"@));
    let across = arith::single_product(width, p);
    let down = arith::single_product(height, q);
    let w3 = w2.with_field(sprite, "width"@, ValueView::Float(across));
    assert(w3.class_of(sprite) is Some);
    assert(w3.field(sprite, "region_height"@) == w.field(sprite, "region_height"@));
    let w4 = w3.with_field(sprite, "height"@, ValueView::Float(down));
    assert(sprites::scaled(w, sprite, x, y) == w4);
}

/// A batch draws a texture at the place that it is given, as large as its image, and nothing else
/// of the world changes. It asks for the image first.
pub proof fn a_batch_draws_a_texture_at_its_place(
    w: WorldView,
    batch: ObjectId,
    texture: ObjectId,
    path: Seq<char>,
    x: u32,
    y: u32,
    width: u32,
    height: u32,
)
    requires
        forall|name: Seq<char>| #[trigger] w.field(batch, name) is None,
        w.field_text(texture, "path"@) == Some(path),
        w.field(texture, "region_width"@) is None,
        w.field(texture, "region_height"@) is None,
        0 < width < 0x100_0000,
        0 < height < 0x100_0000,
    ensures
        ({
            let class_name = "Lcom/badlogic/gdx/graphics/g2d/SpriteBatch;"@;
            let args = seq![
                ValueView::Object(batch),
                ValueView::Object(texture),
                ValueView::Float(x),
                ValueView::Float(y),
            ];
            let size = AnswerView::Size(Some((width, height)));
            &&& sprites::question(w, class_name, "draw"@, args, Seq::empty()) == Some(
                QueryView::ImageSize(path),
            )
            &&& sprites::question(w, class_name, "draw"@, args, seq![size]) == Some(
                QueryView::Image(path),
            )
            &&& sprites::performed(w, class_name, "draw"@, args, seq![size, size]) matches Some(
                (after, r),
            ) && r == Ok::<ValueView, ErrorView>(ValueView::Void) && after == (WorldView {
                effects: after.effects,
                ..w
            }) && after.effects.len() == w.effects.len() + 2 && after.effects[
                w.effects.len() as int
            ] == EffectView::UploadImage(path) && (
            after.effects.last() matches EffectView::DrawTexture { bounds, .. } && bounds.x == x
                && bounds.y == y && float::single_worth(bounds.width) == width * pow2(149)
                && float::single_worth(bounds.height) == height * pow2(149))
        }),
{
    lemma_batch_class();
    lemma_batch_draw();
    let args = seq![
        ValueView::Object(batch),
        ValueView::Object(texture),
        ValueView::Float(x),
        ValueView::Float(y),
    ];
    let size = AnswerView::Size(Some((width, height)));
    assert(value::at(args, 0) == Some(ValueView::Object(batch)));
    assert(value::at(args, 1) == Some(ValueView::Object(texture)));
    assert(value::at(args, 2) == Some(ValueView::Float(x)));
    assert(value::at(args, 3) == Some(ValueView::Float(y)));
    assert(value::at(args, 4) is None && value::at(args, 5) is None);
    assert(w.field(batch, "x"@) is None && w.field(batch, "y"@) is None);
    assert(w.field(batch, "width"@) is None && w.field(batch, "height"@) is None);
    assert(w.field(batch, "region_width"@) is None && w.field(batch, "region_height"@) is None);
    let both = seq![size, size];
    assert(host::size_in(both, 0) == Some((width, height)));
    assert(host::size_in(both, 1) == Some((width, height)));
    assert(host::size_in(seq![size], 0) == Some((width, height)));
    lemma_pixels(width);
    lemma_pixels(height);
    lemma_one_at_least(float::int_as_single(width as int), width);
    lemma_one_at_least(float::int_as_single(height as int), height);
    assert(sprites::bounds_image(w, args) == Some(path));
    lemma_batch_draws(w, args, batch, texture, path, x, y, width, height);
}

proof fn lemma_one_at_least(b: u32, n: u32)
    requires
        n > 0,
        finite_single(b),
        float::single_worth(b) == n * pow2(149),
    ensures
        float::single_greater(b, 0x3f80_0000) == b,
{
    lemma_pow2_pos(23);
    rounding::the_worth_of_a_single(false, 0, 0);
    assert(n * pow2(149) >= pow2(149)) by (nonlinear_arith)
        requires
            n >= 1,
    ;
}

proof fn lemma_batch_draws(
    w: WorldView,
    args: Seq<ValueView>,
    batch: ObjectId,
    texture: ObjectId,
    path: Seq<char>,
    x: u32,
    y: u32,
    width: u32,
    height: u32,
)
    requires
        args == seq![
            ValueView::Object(batch),
            ValueView::Object(texture),
            ValueView::Float(x),
            ValueView::Float(y),
        ],
        w.field(batch, "x"@) is None && w.field(batch, "y"@) is None,
        w.field(batch, "width"@) is None && w.field(batch, "height"@) is None,
        w.field(batch, "region_width"@) is None && w.field(batch, "region_height"@) is None,
        w.field_text(texture, "path"@) == Some(path),
        w.field(texture, "region_width"@) is None,
        w.field(texture, "region_height"@) is None,
        sprites::bounds_image(w, args) == Some(path),
        float::single_greater(float::int_as_single(width as int), 0x3f80_0000)
            == float::int_as_single(width as int),
        float::single_greater(float::int_as_single(height as int), 0x3f80_0000)
            == float::int_as_single(height as int),
    ensures
        ({
            let size = AnswerView::Size(Some((width, height)));
            sprites::draw_thing(w, false, args, seq![size, size]) == w.did(
                EffectView::UploadImage(path),
            ).did(
                EffectView::DrawTexture {
                    bounds: Bounds {
                        x,
                        y,
                        width: float::int_as_single(width as int),
                        height: float::int_as_single(height as int),
                    },
                    color: sprites::tint(w, Some(texture)),
                },
            )
        }),
{
    reveal(sprites::draw_thing);
    let size = AnswerView::Size(Some((width, height)));
    let both = seq![size, size];
    assert(value::at(args, 0) == Some(ValueView::Object(batch)));
    assert(value::at(args, 1) == Some(ValueView::Object(texture)));
    assert(value::at(args, 2) == Some(ValueView::Float(x)));
    assert(value::at(args, 3) == Some(ValueView::Float(y)));
    assert(value::at(args, 4) is None && value::at(args, 5) is None);
    assert(host::size_in(both, 0) == Some((width, height)));
    assert(host::size_in(both, 1) == Some((width, height)));
    assert(sprites::bounds_of(w, args, Some((width, height))) == (Bounds {
        x,
        y,
        width: float::int_as_single(width as int),
        height: float::int_as_single(height as int),
    }));
    assert(sprites::source_region(w, Some(texture)) is None);
}

/// A part of a colour between zero and one is so much of 255, without its fraction; less is none
/// and more is all of it.
pub proof fn a_part_of_a_colour_is_a_byte(f: u32, exact: u32)
    requires
        finite_single(f),
        finite_single(exact),
        float::single_worth(exact) == float::single_worth(f) * 255,
    ensures
        truncates(
            gl::unit_byte(f) as int,
            float::single_worth(f) * 255,
            pow2(149) as int,
            0,
            255,
        ),
        gl::unit_byte(0) == 0,
        gl::unit_byte(0x3f80_0000) == 255,
{
    let one = pow2(149) as int;
    lemma_byte_of(f, exact);
    lemma_pow2_pos(23);
    lemma_pow2_pos(149);
    rounding::the_worth_of_a_single(false, 0, 0);
    rounding::lemma_units_zero(23);
    conversions::a_short_integer_is_exact_as_a_single(255);
    lemma_byte_of(0, 0);
    lemma_byte_of(0x3f80_0000, float::int_as_single(255));
    let (n, m) = (gl::unit_byte(0) as int, gl::unit_byte(0x3f80_0000) as int);
    assert(n == 0) by (nonlinear_arith)
        requires
            n * one <= 0,
            n >= 0,
            one > 0,
    ;
    assert(m == 255) by (nonlinear_arith)
        requires
            m * one <= 255 * one < (m + 1) * one,
            one > 0,
    ;
}

proof fn lemma_byte_of(f: u32, exact: u32)
    requires
        finite_single(f),
        finite_single(exact),
        float::single_worth(exact) == float::single_worth(f) * 255,
    ensures
        truncates(
            gl::unit_byte(f) as int,
            float::single_worth(f) * 255,
            pow2(149) as int,
            0,
            255,
        ),
{
    let one = pow2(149) as int;
    lemma_pow2_pos(149);
    lemma_255();
    rounding::the_product_of_singles_is_closest(f, 0x437f_0000);
    let p = arith::single_product(f, 0x437f_0000);
    let (m, e) = (float::single_worth(f), float::single_worth(exact));
    assert(m * (255 * one) == (m * 255) * one) by (nonlinear_arith);
    rounding::the_closest_single_is_exact(p, m * (255 * one), one, exact);
    let v = float::single_worth(p);
    assert(v == e) by (nonlinear_arith)
        requires
            v * one == e * one,
            one > 0,
    ;
    conversions::a_number_loses_its_fraction(p, 0, 0, 255);
}

proof fn lemma_255()
    ensures
        float::single_worth(0x437f_0000) == 255 * pow2(149),
        finite_single(0x437f_0000),
{
    lemma2_to64();
    lemma2_to64_rest();
    rounding::the_worth_of_a_single(false, 134, 0x7f_0000);
    lemma_pow2_adds(133, 16);
    assert(0xff_0000 * pow2(133) == 255 * (pow2(133) * 0x1_0000)) by (nonlinear_arith);
}

} // verus!
