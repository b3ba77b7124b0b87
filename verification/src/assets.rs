//! Block texture assets, the decoding of their PNG images (with the image crate) and the
//! assembly of texture arrays from them.

use vstd::prelude::*;
use crate::math::UVec2;

verus! {

/// Something that names an asset file.
pub trait AssetPaths {
    /// The file name of the asset.
    fn file_name(self) -> &'static str;
}

/// The textures of the block faces, in the order of the layers of the block texture array.
#[derive(Clone, Copy, Debug, PartialEq, Eq, Structural)]
pub enum BlockTexture {
    Stone,
    Dirt,
    GrassTop,
    GrassSide,
    Sand,
    Bedrock,
    Wood,
    WoodTop,
    Leaf,
    Torch,
    TallGrass,
    Snow,
    GrassSideSnow,
    Cobblestone,
    Planks,
    WaterSolid,
    Water,
}

/// The image file of a block texture.
pub open spec fn block_texture_file(texture: BlockTexture) -> Seq<char> {
    match texture {
        BlockTexture::Stone => "stone.png"@,
        BlockTexture::Dirt => "dirt.png"@,
        BlockTexture::GrassTop => "grass_top.png"@,
        BlockTexture::GrassSide => "grass_side.png"@,
        BlockTexture::Sand => "sand.png"@,
        BlockTexture::Bedrock => "bedrock.png"@,
        BlockTexture::Wood => "wood.png"@,
        BlockTexture::WoodTop => "wood_top.png"@,
        BlockTexture::Leaf => "leaf.png"@,
        BlockTexture::Torch => "torch.png"@,
        BlockTexture::TallGrass => "tall_grass.png"@,
        BlockTexture::Snow => "snow.png"@,
        BlockTexture::GrassSideSnow => "grass_side_snow.png"@,
        BlockTexture::Cobblestone => "cobblestone.png"@,
        BlockTexture::Planks => "planks.png"@,
        BlockTexture::WaterSolid => "solid_water.png"@,
        BlockTexture::Water => "water.png"@,
    }
}

impl AssetPaths for BlockTexture {
    fn file_name(self) -> (name: &'static str)
        ensures
            name@ == block_texture_file(self),
    {
        match self {
            Self::Stone => "stone.png",
            Self::Dirt => "dirt.png",
            Self::GrassTop => "grass_top.png",
            Self::GrassSide => "grass_side.png",
            Self::Sand => "sand.png",
            Self::Bedrock => "bedrock.png",
            Self::Wood => "wood.png",
            Self::WoodTop => "wood_top.png",
            Self::Leaf => "leaf.png",
            Self::Torch => "torch.png",
            Self::TallGrass => "tall_grass.png",
            Self::Snow => "snow.png",
            Self::GrassSideSnow => "grass_side_snow.png",
            Self::Cobblestone => "cobblestone.png",
            Self::Planks => "planks.png",
            Self::WaterSolid => "solid_water.png",
            Self::Water => "water.png",
        }
    }
}

/// Every block texture, in declaration order.
pub open spec fn block_textures() -> Seq<BlockTexture> {
    seq![
        BlockTexture::Stone,
        BlockTexture::Dirt,
        BlockTexture::GrassTop,
        BlockTexture::GrassSide,
        BlockTexture::Sand,
        BlockTexture::Bedrock,
        BlockTexture::Wood,
        BlockTexture::WoodTop,
        BlockTexture::Leaf,
        BlockTexture::Torch,
        BlockTexture::TallGrass,
        BlockTexture::Snow,
        BlockTexture::GrassSideSnow,
        BlockTexture::Cobblestone,
        BlockTexture::Planks,
        BlockTexture::WaterSolid,
        BlockTexture::Water,
    ]
}

impl BlockTexture {
    /// Every block texture, in declaration order (the layer order of the texture array).
    pub fn all() -> (textures: Vec<BlockTexture>)
        ensures
            textures@ == block_textures(),
    {
        let textures = vec![
            BlockTexture::Stone,
            BlockTexture::Dirt,
            BlockTexture::GrassTop,
            BlockTexture::GrassSide,
            BlockTexture::Sand,
            BlockTexture::Bedrock,
            BlockTexture::Wood,
            BlockTexture::WoodTop,
            BlockTexture::Leaf,
            BlockTexture::Torch,
            BlockTexture::TallGrass,
            BlockTexture::Snow,
            BlockTexture::GrassSideSnow,
            BlockTexture::Cobblestone,
            BlockTexture::Planks,
            BlockTexture::WaterSolid,
            BlockTexture::Water,
        ];
        assert(textures@ =~= block_textures());
        textures
    }
}


// ---------------------------------------------------------------------------
// texture arrays

/// The pixel data of the layers, one after the other.
pub open spec fn layers_data(layers: Seq<(Vec<u8>, UVec2)>) -> Seq<u8> {
    layers.map_values(|layer: (Vec<u8>, UVec2)| layer.0@).flatten()
}

/// Assemble loaded RGBA images into the data of a texture array: the layers' bytes in
/// order, the size of the first layer (which the array takes for all) and the layer count.
/// The images must not be empty ("no images loaded"); the capacity reserved for the data,
/// `width * height * layers * 4`, is computed in `u32`.
pub fn assemble_texture_array(raw_images: &Vec<(Vec<u8>, UVec2)>) -> (array: (Vec<u8>, UVec2, u32))
    requires
        raw_images@.len() > 0,
        raw_images@.len() <= u32::MAX,
        raw_images@[0].1.x * raw_images@[0].1.y * raw_images@.len() * 4 <= u32::MAX,
    ensures
        array.0@ == layers_data(raw_images@),
        array.1 == raw_images@[0].1,
        array.2 == raw_images@.len(),
{
    let size = raw_images[0].1;
    let layers = raw_images.len() as u32;
    proof {
        assert(size.x * size.y * layers * 4 <= u32::MAX);
        assert(size.x * size.y <= u32::MAX && size.x * size.y * layers <= u32::MAX) by (nonlinear_arith)
            requires
                size.x * size.y * layers * 4 <= u32::MAX,
                layers >= 1,
        ;
    }
    let capacity = size.x * size.y * layers * 4;
    let mut data: Vec<u8> = Vec::with_capacity(capacity as usize);
    let ghost views = raw_images@.map_values(|layer: (Vec<u8>, UVec2)| layer.0@);
    let mut i: usize = 0;
    while i < raw_images.len()
        invariant
            i <= raw_images@.len(),
            views == raw_images@.map_values(|layer: (Vec<u8>, UVec2)| layer.0@),
            data@ == views.take(i as int).flatten_alt(),
        decreases raw_images@.len() - i,
    {
        data.extend_from_slice(raw_images[i].0.as_slice());
        proof {
            let t = views.take(i + 1);
            assert(t.drop_last() =~= views.take(i as int));
            assert(t.last() == raw_images@[i as int].0@);
            assert(t.flatten_alt() == t.drop_last().flatten_alt() + t.last());
        }
        i = i + 1;
    }
    proof {
        assert(views.take(raw_images@.len() as int) =~= views);
        views.lemma_flatten_and_flatten_alt_are_equivalent();
    }
    (data, size, layers)
}

/// The size that every image of a texture array shares: `Some` when there is at least one
/// image, none is empty (zero wide or high), and all are the same size.
pub fn common_dimensions(dimensions: &[UVec2]) -> (size: Option<UVec2>)
    ensures
        (match size {
            Some(d) => {
                &&& dimensions@.len() > 0
                &&& d.x > 0 && d.y > 0
                &&& forall|i: int| 0 <= i < dimensions@.len() ==> dimensions@[i] == d
            },
            None => {
                ||| dimensions@.len() == 0
                ||| exists|i: int| 0 <= i < dimensions@.len() && (dimensions@[i].x == 0 || dimensions@[i].y == 0 || dimensions@[i] != dimensions@[0])
            },
        }),
{
    if dimensions.len() == 0 {
        return None;
    }
    let first = dimensions[0];
    let mut i: usize = 0;
    while i < dimensions.len()
        invariant
            i <= dimensions@.len(),
            dimensions@.len() > 0,
            first == dimensions@[0],
            forall|j: int| 0 <= j < i ==> dimensions@[j] == first && first.x > 0 && first.y > 0,
        decreases dimensions@.len() - i,
    {
        let d = dimensions[i];
        if d.x == 0 || d.y == 0 || d.x != first.x || d.y != first.y {
            return None;
        }
        i = i + 1;
    }
    Some(first)
}

// ---------------------------------------------------------------------------
// decoding images

/// What the image crate gives for `bytes` read as a PNG file and converted to 8-bit RGBA:
/// the pixels row by row, the width and the height; `None` when it does not decode them.
pub uninterp spec fn png_rgba8(bytes: Seq<u8>) -> Option<(Seq<u8>, u32, u32)>;

/// Calls `image::load` on the bytes with `ImageFormat::Png`, then `to_rgba8`.
/// Claimed: the result depends on the bytes alone and is named, not stated, except that
/// the RGBA buffer holds four bytes for each pixel (`decoder_to_vec` sizes a decoded RGBA8
/// buffer to the decoder's `total_bytes`, and `ImageBuffer::new` sizes a converted one, to
/// width * height * 4).
#[verifier::external_body]
fn decode_png_rgba8(bytes: &[u8]) -> (image: Option<(Vec<u8>, UVec2)>)
    ensures
        (match image {
            Some(decoded) => {
                &&& png_rgba8(bytes@) == Some((decoded.0@, decoded.1.x, decoded.1.y))
                &&& decoded.0@.len() == decoded.1.x * decoded.1.y * 4
            },
            None => png_rgba8(bytes@) is None,
        }),
{
    match image::load(std::io::Cursor::new(bytes), image::ImageFormat::Png) {
        Ok(decoded) => {
            let rgba = decoded.to_rgba8();
            let (x, y) = rgba.dimensions();
            Some((rgba.into_raw(), UVec2 { x, y }))
        },
        Err(_) => None,
    }
}

/// Decode a PNG file, which must be one that the image crate decodes, into its 8-bit RGBA
/// pixels and size: the image of a 2D texture.
pub fn load_texture2d(bytes: &[u8]) -> (image: (Vec<u8>, UVec2))
    requires
        png_rgba8(bytes@) is Some,
    ensures
        png_rgba8(bytes@) == Some((image.0@, image.1.x, image.1.y)),
        image.0@.len() == image.1.x * image.1.y * 4,
{
    match decode_png_rgba8(bytes) {
        Some(decoded) => decoded,
        None => {
            assert(false);
            (Vec::new(), UVec2 { x: 0, y: 0 })
        },
    }
}

/// Decode a PNG file into its 8-bit RGBA pixels and size; `None` when it is no PNG image
/// that the image crate decodes.
pub fn try_load_texture2d(bytes: &[u8]) -> (image: Option<(Vec<u8>, UVec2)>)
    ensures
        (match image {
            Some(decoded) => {
                &&& png_rgba8(bytes@) == Some((decoded.0@, decoded.1.x, decoded.1.y))
                &&& decoded.0@.len() == decoded.1.x * decoded.1.y * 4
            },
            None => png_rgba8(bytes@) is None,
        }),
{
    match decode_png_rgba8(bytes) {
        Some(_) => Some(load_texture2d(bytes)),
        None => None,
    }
}

/// Every file of `files` decodes.
pub open spec fn all_decode(files: Seq<Vec<u8>>) -> bool {
    forall|i: int| 0 <= i < files.len() ==> (#[trigger] png_rgba8(files[i]@)) is Some
}

/// The first file of `files` that does not decode is the one at `i`.
pub open spec fn first_undecodable(files: Seq<Vec<u8>>, i: int) -> bool {
    &&& 0 <= i < files.len()
    &&& png_rgba8(files[i]@) is None
    &&& forall|j: int| 0 <= j < i ==> (#[trigger] png_rgba8(files[j]@)) is Some
}

/// The decoded images of `files`, in order (meaningful where they all decode).
pub open spec fn decoded_images(files: Seq<Vec<u8>>) -> Seq<(Seq<u8>, u32, u32)> {
    Seq::new(files.len(), |i: int| png_rgba8(files[i]@).unwrap())
}

/// The decoded layers `layers`, as (pixels, width, height).
pub open spec fn layer_images(layers: Seq<(Vec<u8>, UVec2)>) -> Seq<(Seq<u8>, u32, u32)> {
    layers.map_values(|layer: (Vec<u8>, UVec2)| (layer.0@, layer.1.x, layer.1.y))
}

/// The pixels of the images, one after the other.
pub open spec fn images_data(images: Seq<(Seq<u8>, u32, u32)>) -> Seq<u8> {
    images.map_values(|image: (Seq<u8>, u32, u32)| image.0).flatten()
}

/// Decode the PNG files of a texture array's layers, in order; when some file is no PNG
/// image, the index of the first such file.
pub fn decode_layers(files: &[Vec<u8>]) -> (layers: Result<Vec<(Vec<u8>, UVec2)>, usize>)
    ensures
        (match layers {
            Ok(decoded) => {
                &&& all_decode(files@)
                &&& layer_images(decoded@) == decoded_images(files@)
                &&& forall|i: int| 0 <= i < decoded@.len()
                    ==> (#[trigger] decoded@[i]).0@.len() == decoded@[i].1.x * decoded@[i].1.y * 4
            },
            Err(i) => first_undecodable(files@, i as int),
        }),
{
    let mut decoded: Vec<(Vec<u8>, UVec2)> = Vec::new();
    let mut i: usize = 0;
    while i < files.len()
        invariant
            i <= files@.len(),
            decoded@.len() == i,
            forall|j: int| 0 <= j < i ==> (#[trigger] png_rgba8(files@[j]@)) is Some,
            forall|j: int| 0 <= j < i ==> png_rgba8(files@[j]@) == Some((#[trigger] decoded@[j].0@, decoded@[j].1.x, decoded@[j].1.y)),
            forall|j: int| 0 <= j < i ==> (#[trigger] decoded@[j]).0@.len() == decoded@[j].1.x * decoded@[j].1.y * 4,
        decreases files@.len() - i,
    {
        match decode_png_rgba8(files[i].as_slice()) {
            Some(image) => {
                decoded.push(image);
            },
            None => {
                return Err(i);
            },
        }
        i = i + 1;
    }
    assert(layer_images(decoded@) =~= decoded_images(files@)) by {
        assert forall|j: int| 0 <= j < files@.len() implies layer_images(decoded@)[j] == decoded_images(files@)[j] by {
            assert(png_rgba8(files@[j]@) == Some((decoded@[j].0@, decoded@[j].1.x, decoded@[j].1.y)));
        }
    }
    Ok(decoded)
}

/// The pixels of layers are those of their images.
proof fn lemma_layers_data_images(layers: Seq<(Vec<u8>, UVec2)>)
    ensures
        layers_data(layers) == images_data(layer_images(layers)),
{
    assert(layers.map_values(|layer: (Vec<u8>, UVec2)| layer.0@)
        =~= layer_images(layers).map_values(|image: (Seq<u8>, u32, u32)| image.0));
}

/// Why the images of a texture array could not be turned into one.
#[derive(Clone, Copy, Debug, PartialEq, Eq, Structural)]
pub enum TextureArrayError {
    /// The file at this index is no PNG image that the image crate decodes.
    Decode(usize),
    /// There are no images.
    NoImages,
    /// Some image is zero wide or high, or differs in size from the first.
    Dimensions,
    /// The byte count of the array does not fit in `u32`.
    TooLarge,
}

/// The layers' bytes, one layer after the other.
fn concat_layers(layers: &Vec<(Vec<u8>, UVec2)>) -> (data: Vec<u8>)
    ensures
        data@ == layers_data(layers@),
{
    let mut data: Vec<u8> = Vec::new();
    let ghost views = layers@.map_values(|layer: (Vec<u8>, UVec2)| layer.0@);
    let mut i: usize = 0;
    while i < layers.len()
        invariant
            i <= layers@.len(),
            views == layers@.map_values(|layer: (Vec<u8>, UVec2)| layer.0@),
            data@ == views.take(i as int).flatten_alt(),
        decreases layers@.len() - i,
    {
        data.extend_from_slice(layers[i].0.as_slice());
        proof {
            let t = views.take(i + 1);
            assert(t.drop_last() =~= views.take(i as int));
            assert(t.last() == layers@[i as int].0@);
            assert(t.flatten_alt() == t.drop_last().flatten_alt() + t.last());
        }
        i = i + 1;
    }
    proof {
        assert(views.take(layers@.len() as int) =~= views);
        views.lemma_flatten_and_flatten_alt_are_equivalent();
    }
    data
}

/// Turn decoded layers into the data of a texture array the way the block textures are
/// loaded: there must be at least one image, and all must share one size that is not zero
/// wide or high; the data is the layers' bytes in order.
pub fn texture_array_from_layers(layers: &Vec<(Vec<u8>, UVec2)>) -> (array: Result<(Vec<u8>, UVec2), TextureArrayError>)
    ensures
        (match array {
            Ok(made) => {
                &&& layers@.len() > 0
                &&& made.1.x > 0 && made.1.y > 0
                &&& forall|i: int| 0 <= i < layers@.len() ==> (#[trigger] layers@[i]).1 == made.1
                &&& made.0@ == layers_data(layers@)
            },
            Err(e) => {
                ||| e == TextureArrayError::NoImages && layers@.len() == 0
                ||| e == TextureArrayError::Dimensions && layers@.len() > 0 && exists|i: int|
                    0 <= i < layers@.len() && ((#[trigger] layers@[i]).1.x == 0 || layers@[i].1.y == 0
                        || layers@[i].1 != layers@[0].1)
            },
        }),
{
    let mut sizes: Vec<UVec2> = Vec::new();
    let mut i: usize = 0;
    while i < layers.len()
        invariant
            i <= layers@.len(),
            sizes@.len() == i,
            forall|j: int| 0 <= j < i ==> #[trigger] sizes@[j] == layers@[j].1,
        decreases layers@.len() - i,
    {
        sizes.push(layers[i].1);
        i = i + 1;
    }
    if layers.len() == 0 {
        return Err(TextureArrayError::NoImages);
    }
    match common_dimensions(sizes.as_slice()) {
        Some(size) => {
            assert forall|i: int| 0 <= i < layers@.len() implies (#[trigger] layers@[i]).1 == size by {
                assert(sizes@[i] == layers@[i].1);
            }
            Ok((concat_layers(layers), size))
        },
        None => {
            let ghost i = choose|i: int| 0 <= i < sizes@.len() && (sizes@[i].x == 0 || sizes@[i].y == 0 || sizes@[i] != sizes@[0]);
            assert(sizes@[i] == layers@[i].1 && sizes@[0] == layers@[0].1);
            Err(TextureArrayError::Dimensions)
        },
    }
}

/// The PNG files `files` make a block texture array: there is at least one, all decode,
/// and all share one size that is not zero wide or high.
pub open spec fn makes_texture_array(files: Seq<Vec<u8>>) -> bool {
    &&& files.len() > 0
    &&& all_decode(files)
    &&& decoded_images(files)[0].1 > 0 && decoded_images(files)[0].2 > 0
    &&& forall|i: int| 0 <= i < files.len() ==> #[trigger] decoded_images(files)[i].1 == decoded_images(files)[0].1
        && decoded_images(files)[i].2 == decoded_images(files)[0].2
}

/// A sequence of pieces that all have `n` elements flattens to `len * n` elements.
proof fn lemma_flatten_uniform_len(pieces: Seq<Seq<u8>>, n: int)
    requires
        forall|i: int| 0 <= i < pieces.len() ==> (#[trigger] pieces[i]).len() == n,
    ensures
        pieces.flatten().len() == pieces.len() * n,
    decreases pieces.len(),
{
    if pieces.len() > 0 {
        let rest = pieces.drop_first();
        assert forall|i: int| 0 <= i < rest.len() implies (#[trigger] rest[i]).len() == n by {
            assert(rest[i] == pieces[i + 1]);
        }
        lemma_flatten_uniform_len(rest, n);
        assert(pieces.first() == pieces[0]);
        assert(pieces.len() * n == rest.len() * n + n) by (nonlinear_arith)
            requires
                pieces.len() == rest.len() + 1,
        ;
    }
}

/// In a sequence of pieces that all have `n` elements, the `i`-th run of `n` elements of
/// the flattened sequence is the `i`-th piece.
proof fn lemma_flatten_uniform_piece(pieces: Seq<Seq<u8>>, n: int, i: int)
    requires
        0 <= i < pieces.len(),
        forall|k: int| 0 <= k < pieces.len() ==> (#[trigger] pieces[k]).len() == n,
    ensures
        pieces.flatten().subrange(i * n, i * n + n) == pieces[i],
    decreases i,
{
    let rest = pieces.drop_first();
    assert(pieces.first() == pieces[0]);
    assert(pieces.flatten() == pieces[0] + rest.flatten());
    assert forall|k: int| 0 <= k < rest.len() implies (#[trigger] rest[k]).len() == n by {
        assert(rest[k] == pieces[k + 1]);
    }
    lemma_flatten_uniform_len(rest, n);
    if i == 0 {
        assert(pieces.flatten().subrange(0, n) =~= pieces[0]);
    } else {
        lemma_flatten_uniform_piece(rest, n, i - 1);
        assert(rest[i - 1] == pieces[i]);
        assert(i * n == (i - 1) * n + n) by (nonlinear_arith);
        assert((i - 1) * n + n <= rest.len() * n) by (nonlinear_arith)
            requires
                i - 1 < rest.len(),
                n >= 0,
        ;
        assert(pieces.flatten().subrange(i * n, i * n + n) =~= rest.flatten().subrange((i - 1) * n, (i - 1) * n + n));
    }
}

/// In the data of a texture array whose images all have `n` bytes, layer `i` is exactly
/// the bytes of the `i`-th image: bytes `i * n` up to `(i + 1) * n`.
pub proof fn lemma_array_layer_is_image(images: Seq<(Seq<u8>, u32, u32)>, n: int, i: int)
    requires
        0 <= i < images.len(),
        forall|k: int| 0 <= k < images.len() ==> (#[trigger] images[k]).0.len() == n,
    ensures
        images_data(images).len() == images.len() * n,
        images_data(images).subrange(i * n, i * n + n) == images[i].0,
{
    let pieces = images.map_values(|image: (Seq<u8>, u32, u32)| image.0);
    assert forall|k: int| 0 <= k < pieces.len() implies (#[trigger] pieces[k]).len() == n by {
        assert(pieces[k] == images[k].0);
    }
    lemma_flatten_uniform_len(pieces, n);
    lemma_flatten_uniform_piece(pieces, n, i);
}

/// Load the block texture array from its PNG files (in layer order), which must make one
/// (see [`makes_texture_array`]): the layers' pixels in order, `width * height * 4` bytes
/// each, and their size.
pub fn load_asset_texture_array(files: &[Vec<u8>]) -> (array: (Vec<u8>, UVec2))
    requires
        makes_texture_array(files@),
    ensures
        array.1.x == decoded_images(files@)[0].1,
        array.1.y == decoded_images(files@)[0].2,
        array.0@ == images_data(decoded_images(files@)),
        array.0@.len() == files@.len() * (array.1.x * array.1.y * 4),
{
    let layers = match decode_layers(files) {
        Ok(layers) => layers,
        Err(i) => {
            assert(png_rgba8(files@[i as int]@) is Some);
            assert(false);
            return (Vec::new(), UVec2 { x: 0, y: 0 });
        },
    };
    proof {
        lemma_layers_data_images(layers@);
        assert(layer_images(layers@).len() == layers@.len());
        assert forall|i: int| 0 <= i < layers@.len() implies #[trigger] layer_images(layers@)[i] == (layers@[i].0@, layers@[i].1.x, layers@[i].1.y) by {}
        assert(layer_images(layers@)[0] == decoded_images(files@)[0]);
    }
    match texture_array_from_layers(&layers) {
        Ok(made) => {
            proof {
                let images = decoded_images(files@);
                let pieces = images.map_values(|image: (Seq<u8>, u32, u32)| image.0);
                let n = made.1.x * made.1.y * 4;
                assert forall|i: int| 0 <= i < pieces.len() implies (#[trigger] pieces[i]).len() == n by {
                    assert(pieces[i] == images[i].0);
                    assert(layer_images(layers@)[i] == images[i]);
                    assert(layers@[i].1 == made.1);
                }
                lemma_flatten_uniform_len(pieces, n);
            }
            made
        },
        Err(e) => {
            proof {
                if e == TextureArrayError::Dimensions {
                    let i = choose|i: int| 0 <= i < layers@.len() && ((#[trigger] layers@[i]).1.x == 0 || layers@[i].1.y == 0
                        || layers@[i].1 != layers@[0].1);
                    assert(layer_images(layers@)[i] == decoded_images(files@)[i]);
                    assert(decoded_images(files@)[i].1 == decoded_images(files@)[0].1);
                }
                assert(false);
            }
            (Vec::new(), UVec2 { x: 0, y: 0 })
        },
    }
}

/// Load the block texture array from its PNG files (in layer order): each is decoded, all
/// must decode, there must be at least one, and all must share one size that is not zero
/// wide or high; an error tells which of these fails. The result is that of
/// [`load_asset_texture_array`].
pub fn try_load_asset_texture_array(files: &[Vec<u8>]) -> (array: Result<(Vec<u8>, UVec2), TextureArrayError>)
    ensures
        (match array {
            Ok(made) => {
                &&& makes_texture_array(files@)
                &&& made.1.x == decoded_images(files@)[0].1
                &&& made.1.y == decoded_images(files@)[0].2
                &&& made.0@ == images_data(decoded_images(files@))
                &&& made.0@.len() == files@.len() * (made.1.x * made.1.y * 4)
            },
            Err(e) => {
                ||| e matches TextureArrayError::Decode(i) && first_undecodable(files@, i as int)
                ||| e == TextureArrayError::NoImages && files@.len() == 0
                ||| e == TextureArrayError::Dimensions && all_decode(files@) && files@.len() > 0 && exists|i: int|
                    0 <= i < files@.len() && ((#[trigger] decoded_images(files@)[i]).1 == 0 || decoded_images(files@)[i].2 == 0
                        || decoded_images(files@)[i].1 != decoded_images(files@)[0].1
                        || decoded_images(files@)[i].2 != decoded_images(files@)[0].2)
            },
        }),
{
    let layers = match decode_layers(files) {
        Ok(layers) => layers,
        Err(i) => {
            return Err(TextureArrayError::Decode(i));
        },
    };
    proof {
        assert(layer_images(layers@).len() == layers@.len());
        assert forall|i: int| 0 <= i < layers@.len() implies #[trigger] layer_images(layers@)[i] == (layers@[i].0@, layers@[i].1.x, layers@[i].1.y) by {}
    }
    match texture_array_from_layers(&layers) {
        Ok(made) => {
            proof {
                let size = made.1;
                assert(layer_images(layers@)[0] == decoded_images(files@)[0]);
                assert(layers@[0].1 == size);
                assert forall|i: int| 0 <= i < files@.len() implies #[trigger] decoded_images(files@)[i].1 == decoded_images(files@)[0].1
                    && decoded_images(files@)[i].2 == decoded_images(files@)[0].2 by {
                    assert(layer_images(layers@)[i] == decoded_images(files@)[i]);
                    assert(layers@[i].1 == size);
                }
            }
            Ok(load_asset_texture_array(files))
        },
        Err(e) => {
            proof {
                if e == TextureArrayError::Dimensions {
                    let i = choose|i: int| 0 <= i < layers@.len() && ((#[trigger] layers@[i]).1.x == 0 || layers@[i].1.y == 0
                        || layers@[i].1 != layers@[0].1);
                    assert(layer_images(layers@)[i] == decoded_images(files@)[i]);
                    assert(layer_images(layers@)[0] == decoded_images(files@)[0]);
                    assert(decoded_images(files@)[i].1 == 0 || decoded_images(files@)[i].2 == 0
                        || decoded_images(files@)[i].1 != decoded_images(files@)[0].1
                        || decoded_images(files@)[i].2 != decoded_images(files@)[0].2);
                }
            }
            Err(e)
        },
    }
}

/// The PNG files `files` make a texture array prefab: there is at least one, all decode,
/// and the layer count and the byte count `width * height * layers * 4` of the first
/// image's size fit in `u32`.
pub open spec fn makes_texture2darray_prefab(files: Seq<Vec<u8>>) -> bool {
    &&& files.len() > 0
    &&& all_decode(files)
    &&& files.len() <= u32::MAX
    &&& decoded_images(files)[0].1 * decoded_images(files)[0].2 * files.len() * 4 <= u32::MAX
}

/// Load a texture array prefab from its PNG files (in layer order), which must make one
/// (see [`makes_texture2darray_prefab`]): the layers' pixels in order, the size of the
/// first image, which the array takes for all, and the layer count.
pub fn load_texture2darray_prefab(files: &[Vec<u8>]) -> (array: (Vec<u8>, UVec2, u32))
    requires
        makes_texture2darray_prefab(files@),
    ensures
        array.1.x == decoded_images(files@)[0].1 && array.1.y == decoded_images(files@)[0].2,
        array.2 == files@.len(),
        array.0@ == images_data(decoded_images(files@)),
{
    let layers = match decode_layers(files) {
        Ok(layers) => layers,
        Err(i) => {
            assert(png_rgba8(files@[i as int]@) is Some);
            assert(false);
            return (Vec::new(), UVec2 { x: 0, y: 0 }, 0);
        },
    };
    proof {
        lemma_layers_data_images(layers@);
        assert(layer_images(layers@).len() == layers@.len());
        assert(layer_images(layers@)[0] == decoded_images(files@)[0]);
        assert(layer_images(layers@)[0] == (layers@[0].0@, layers@[0].1.x, layers@[0].1.y));
    }
    assemble_texture_array(&layers)
}

/// Load a texture array prefab from its PNG files (in layer order): each is decoded, all
/// must decode and there must be at least one; the array takes the size of the first
/// image. Its layer count and byte count, `width * height * layers * 4`, are computed in
/// `u32` ([`TextureArrayError::TooLarge`] when they do not fit). The result is that of
/// [`load_texture2darray_prefab`].
pub fn try_load_texture2darray_prefab(files: &[Vec<u8>]) -> (array: Result<(Vec<u8>, UVec2, u32), TextureArrayError>)
    ensures
        (match array {
            Ok(made) => {
                &&& makes_texture2darray_prefab(files@)
                &&& made.1.x == decoded_images(files@)[0].1 && made.1.y == decoded_images(files@)[0].2
                &&& made.2 == files@.len()
                &&& made.0@ == images_data(decoded_images(files@))
            },
            Err(e) => {
                ||| e matches TextureArrayError::Decode(i) && first_undecodable(files@, i as int)
                ||| e == TextureArrayError::NoImages && files@.len() == 0
                ||| e == TextureArrayError::TooLarge && all_decode(files@) && files@.len() > 0
                    && (files@.len() > u32::MAX
                        || decoded_images(files@)[0].1 * decoded_images(files@)[0].2 * files@.len() * 4 > u32::MAX)
            },
        }),
{
    let layers = match decode_layers(files) {
        Ok(layers) => layers,
        Err(i) => {
            return Err(TextureArrayError::Decode(i));
        },
    };
    assert(layer_images(layers@).len() == layers@.len());
    if layers.len() == 0 {
        return Err(TextureArrayError::NoImages);
    }
    proof {
        lemma_layers_data_images(layers@);
        assert(layer_images(layers@)[0] == decoded_images(files@)[0]);
    }
    let size = layers[0].1;
    if layers.len() > 0xffff_ffff {
        return Err(TextureArrayError::TooLarge);
    }
    let count = layers.len() as u64;
    let x = size.x as u64;
    let y = size.y as u64;
    assert(x * y <= 0xffff_ffff_u64 * 0xffff_ffff_u64) by (nonlinear_arith)
        requires
            x <= 0xffff_ffff,
            y <= 0xffff_ffff,
    ;
    let area = x * y;
    if area > 0xffff_ffff {
        assert(area * count * 4 > u32::MAX) by (nonlinear_arith)
            requires
                area > 0xffff_ffff,
                count >= 1,
        ;
        return Err(TextureArrayError::TooLarge);
    }
    assert(area * count <= 0xffff_ffff_u64 * 0xffff_ffff_u64) by (nonlinear_arith)
        requires
            area <= 0xffff_ffff,
            count <= 0xffff_ffff,
    ;
    let total = area * count;
    if total > 0x3fff_ffff {
        return Err(TextureArrayError::TooLarge);
    }
    assert(size.x * size.y * layers@.len() * 4 <= u32::MAX);
    Ok(load_texture2darray_prefab(files))
}

} // verus!
