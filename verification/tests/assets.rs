use kubi::assets::{AssetPaths, BlockTexture, assemble_texture_array, common_dimensions, load_texture2d,
    try_load_texture2d, load_asset_texture_array, try_load_asset_texture_array, load_texture2darray_prefab,
    try_load_texture2darray_prefab, texture_array_from_layers, TextureArrayError};
use kubi::math::UVec2;

#[test]
fn block_texture_file_names() {
    assert_eq!(BlockTexture::Stone.file_name(), "stone.png");
    assert_eq!(BlockTexture::GrassSideSnow.file_name(), "grass_side_snow.png");
    assert_eq!(BlockTexture::WaterSolid.file_name(), "solid_water.png");
    assert_eq!(BlockTexture::Water.file_name(), "water.png");
    assert_eq!(BlockTexture::Planks.file_name(), "planks.png");
}

#[test]
fn block_textures_in_layer_order() {
    let all = BlockTexture::all();
    assert_eq!(all.len(), 17);
    assert_eq!(all[0], BlockTexture::Stone);
    assert_eq!(all[1], BlockTexture::Dirt);
    assert_eq!(all[16], BlockTexture::Water);
    let names: Vec<&str> = all.iter().map(|t| t.file_name()).collect();
    assert_eq!(names[2], "grass_top.png");
}

#[test]
fn texture_array_concatenates_layers() {
    let size = UVec2 { x: 1, y: 2 };
    let raw = vec![(vec![1u8; 8], size), (vec![2u8; 8], size), (vec![3u8; 8], size)];
    let (data, dims, layers) = assemble_texture_array(&raw);
    assert_eq!(dims, size);
    assert_eq!(layers, 3);
    assert_eq!(data.len(), 24);
    assert_eq!(&data[0..8], &[1u8; 8]);
    assert_eq!(&data[8..16], &[2u8; 8]);
    assert_eq!(&data[16..24], &[3u8; 8]);
}

#[test]
fn common_dimensions_requires_equal_nonzero_sizes() {
    let a = UVec2 { x: 16, y: 16 };
    assert_eq!(common_dimensions(&[a, a, a]), Some(a));
    assert_eq!(common_dimensions(&[]), None);
    assert_eq!(common_dimensions(&[a, UVec2 { x: 16, y: 8 }]), None);
    assert_eq!(common_dimensions(&[UVec2 { x: 0, y: 16 }]), None);
}

fn png(width: u32, height: u32, seed: u8) -> Vec<u8> {
    let pixels: Vec<u8> = (0..width * height * 4).map(|i| (i as u8).wrapping_mul(7).wrapping_add(seed)).collect();
    let image = image::RgbaImage::from_raw(width, height, pixels).expect("pixel buffer");
    let mut bytes = std::io::Cursor::new(Vec::new());
    image.write_to(&mut bytes, image::ImageFormat::Png).expect("png encoding");
    bytes.into_inner()
}

fn pixels(width: u32, height: u32, seed: u8) -> Vec<u8> {
    (0..width * height * 4).map(|i| (i as u8).wrapping_mul(7).wrapping_add(seed)).collect()
}

#[test]
fn png_decodes_to_rgba_pixels() {
    let (data, size) = load_texture2d(&png(3, 2, 1));
    assert_eq!(size, UVec2 { x: 3, y: 2 });
    assert_eq!(data, pixels(3, 2, 1));
    assert_eq!(try_load_texture2d(&png(3, 2, 1)), Some((pixels(3, 2, 1), UVec2 { x: 3, y: 2 })));
    assert!(try_load_texture2d(b"not a png").is_none());
}

#[test]
fn asset_texture_array_concatenates_layers_of_one_size() {
    let files = vec![png(2, 2, 0), png(2, 2, 50)];
    let (data, size) = load_asset_texture_array(&files);
    assert_eq!(size, UVec2 { x: 2, y: 2 });
    let mut expected = pixels(2, 2, 0);
    expected.extend(pixels(2, 2, 50));
    assert_eq!(data.len(), 2 * 2 * 2 * 4);
    assert_eq!(data, expected);
    assert_eq!(try_load_asset_texture_array(&files), Ok((expected, size)));
}

#[test]
fn asset_texture_array_errors() {
    assert_eq!(try_load_asset_texture_array(&[]), Err(TextureArrayError::NoImages));
    assert_eq!(
        try_load_asset_texture_array(&[png(2, 2, 0), b"junk".to_vec(), b"more junk".to_vec()]),
        Err(TextureArrayError::Decode(1))
    );
    assert_eq!(try_load_asset_texture_array(&[png(2, 2, 0), png(2, 3, 0)]), Err(TextureArrayError::Dimensions));
    let layers = vec![(vec![1u8, 2, 3, 4], UVec2 { x: 1, y: 0 })];
    assert_eq!(texture_array_from_layers(&layers), Err(TextureArrayError::Dimensions));
}

#[test]
fn prefab_texture_array_takes_the_first_size() {
    let files = vec![png(1, 1, 9), png(2, 1, 3)];
    let (data, size, layers) = load_texture2darray_prefab(&files);
    assert_eq!(try_load_texture2darray_prefab(&files), Ok((data.clone(), size, layers)));
    assert_eq!(size, UVec2 { x: 1, y: 1 });
    assert_eq!(layers, 2);
    let mut expected = pixels(1, 1, 9);
    expected.extend(pixels(2, 1, 3));
    assert_eq!(data, expected);
    assert_eq!(try_load_texture2darray_prefab(&[]), Err(TextureArrayError::NoImages));
    assert_eq!(try_load_texture2darray_prefab(&[b"x".to_vec()]), Err(TextureArrayError::Decode(0)));
}
