use autograph::blackboard::{
    Blackboard, BlackboardError, BlackboardResource, Image2dLookup, ImageDesc1d, ImageDesc2d,
};
use autograph::flags::Format;
use autograph::image::MipmapsCount;

fn image_2d(width: u32, height: u32, mips: u32, img: usize) -> BlackboardResource {
    BlackboardResource::Image2d {
        desc: ImageDesc2d { format: Format::R8G8B8A8Unorm, width, height, mips },
        img,
    }
}

#[test]
fn empty_blackboard_knows_nothing() {
    let blackboard = Blackboard::new();
    assert_eq!(blackboard.get_resource("anything"), None);
    assert_eq!(blackboard.buffer_by_name("anything", 1), None);
    assert_eq!(blackboard.image_2d_by_name("anything"), None);
    assert_eq!(
        blackboard.image_2d("anything", Format::R8G8B8A8Unorm, 4, 4, MipmapsCount::One),
        Ok(Image2dLookup::Missing(ImageDesc2d {
            format: Format::R8G8B8A8Unorm,
            width: 4,
            height: 4,
            mips: 1
        }))
    );
    assert_eq!(
        blackboard.image_2d("anything", Format::R8Unorm, 300, 512, MipmapsCount::Log2),
        Ok(Image2dLookup::Missing(ImageDesc2d {
            format: Format::R8Unorm,
            width: 300,
            height: 512,
            mips: 10
        }))
    );
    assert_eq!(
        blackboard.image_2d("anything", Format::R8Unorm, 8, 8, MipmapsCount::Specific(3)),
        Ok(Image2dLookup::Missing(ImageDesc2d {
            format: Format::R8Unorm,
            width: 8,
            height: 8,
            mips: 3
        }))
    );
}

#[test]
fn insert_replaces_what_went_by_the_name() {
    let mut blackboard = Blackboard::new();
    blackboard.insert("a", image_2d(4, 4, 1, 0));
    blackboard.insert("b", BlackboardResource::Buffer { size: 16, buf: 1, typeid: Some(77) });
    blackboard.insert("a", image_2d(8, 8, 1, 2));
    assert_eq!(blackboard.get_resource("a"), Some(image_2d(8, 8, 1, 2)));
    assert_eq!(
        blackboard.get_resource("b"),
        Some(BlackboardResource::Buffer { size: 16, buf: 1, typeid: Some(77) })
    );
    assert_eq!(blackboard.get_resource("c"), None);
    assert_eq!(blackboard.get_resource(""), None);
}

#[test]
fn buffers_are_found_by_name_and_type() {
    let mut blackboard = Blackboard::new();
    blackboard.insert("camera", BlackboardResource::Buffer { size: 64, buf: 5, typeid: Some(77) });
    blackboard.insert("raw", BlackboardResource::Buffer { size: 64, buf: 6, typeid: None });
    blackboard.insert("image", image_2d(4, 4, 1, 7));
    assert_eq!(blackboard.buffer_by_name("camera", 77), Some(5));
    assert_eq!(blackboard.buffer_by_name("camera", 78), None);
    assert_eq!(blackboard.buffer_by_name("raw", 77), None);
    assert_eq!(blackboard.buffer_by_name("image", 77), None);
    assert_eq!(blackboard.image_2d_by_name("image"), Some(7));
    assert_eq!(blackboard.image_2d_by_name("camera"), None);
}

#[test]
fn image_2d_must_be_as_described() {
    let mut blackboard = Blackboard::new();
    blackboard.insert("color", image_2d(256, 64, 9, 3));
    blackboard.insert(
        "line",
        BlackboardResource::Image1d {
            desc: ImageDesc1d { format: Format::R8G8B8A8Unorm, width: 256, mips: 1 },
            img: 4,
        },
    );
    assert_eq!(
        blackboard.image_2d("color", Format::R8G8B8A8Unorm, 256, 64, MipmapsCount::Log2),
        Ok(Image2dLookup::Found(3))
    );
    assert_eq!(
        blackboard.image_2d("color", Format::R8G8B8A8Unorm, 256, 64, MipmapsCount::Specific(9)),
        Ok(Image2dLookup::Found(3))
    );
    assert_eq!(
        blackboard.image_2d("color", Format::R8G8B8A8Unorm, 256, 64, MipmapsCount::One),
        Err(BlackboardError::DescriptionMismatch)
    );
    assert_eq!(
        blackboard.image_2d("color", Format::R8G8B8A8Srgb, 256, 64, MipmapsCount::Log2),
        Err(BlackboardError::DescriptionMismatch)
    );
    assert_eq!(
        blackboard.image_2d("color", Format::R8G8B8A8Unorm, 64, 256, MipmapsCount::Log2),
        Err(BlackboardError::DescriptionMismatch)
    );
    assert_eq!(
        blackboard.image_2d("line", Format::R8G8B8A8Unorm, 256, 1, MipmapsCount::One),
        Ok(Image2dLookup::Missing(ImageDesc2d {
            format: Format::R8G8B8A8Unorm,
            width: 256,
            height: 1,
            mips: 1
        }))
    );
}

#[test]
fn names_resolve_up_the_chain() {
    let mut root = Blackboard::new();
    root.insert("shared", image_2d(4, 4, 1, 0));
    root.insert("shadowed", image_2d(4, 4, 1, 1));
    let mut middle = Blackboard::with_parent(&root);
    middle.insert("shadowed", image_2d(8, 8, 1, 2));
    let mut leaf = Blackboard::with_parent(&middle);
    leaf.insert("local", image_2d(2, 2, 1, 3));
    assert_eq!(leaf.image_2d_by_name("local"), Some(3));
    assert_eq!(leaf.image_2d_by_name("shadowed"), Some(2));
    assert_eq!(leaf.image_2d_by_name("shared"), Some(0));
    assert_eq!(leaf.image_2d_by_name("missing"), None);
    assert_eq!(middle.image_2d_by_name("local"), None);
    assert_eq!(root.image_2d_by_name("shadowed"), Some(1));
}

#[test]
fn many_names_are_kept_apart() {
    let mut blackboard = Blackboard::new();
    for i in 0..200usize {
        blackboard.insert(&format!("image{}", i), image_2d(4, 4, 1, i));
    }
    for i in 0..200usize {
        assert_eq!(blackboard.image_2d_by_name(&format!("image{}", i)), Some(i));
    }
    blackboard.insert("image7", image_2d(4, 4, 1, 1000));
    assert_eq!(blackboard.image_2d_by_name("image7"), Some(1000));
    assert_eq!(blackboard.image_2d_by_name("image70"), Some(70));
    assert_eq!(blackboard.image_2d_by_name("image"), None);
}
