//! The resource tracker: the images of a frame and the uses declared for them.
//!
//! The usage flags of an image only ever grow while the frame is built. Once
//! the backend has allocated storage for an image its flags are frozen, and a
//! use that was not declared by then is refused.

use crate::flags::{Format, ImageLayout, ImageUsageFlags, SampleCountFlags, includes};
use crate::ids::ImageId;
use vstd::prelude::*;

verus! {

/// The size of an image in texels.
#[derive(Clone, Copy, Debug, PartialEq, Eq, Structural)]
pub struct Extent3D {
    pub width: u32,
    pub height: u32,
    pub depth: u32,
}

/// The number of dimensions of an image.
#[derive(Clone, Copy, Debug, PartialEq, Eq, Structural)]
pub enum ImageType {
    Type1d,
    Type2d,
    Type3d,
}

/// How the texels of an image are laid out in memory.
#[derive(Clone, Copy, Debug, PartialEq, Eq, Structural)]
pub enum ImageTiling {
    Optimal,
    Linear,
}

/// Whether an image is used by one queue family at a time or by several.
#[derive(Clone, Copy, Debug, PartialEq, Eq, Structural)]
pub enum SharingMode {
    Exclusive,
    Concurrent,
}

/// What the backend needs to know to allocate an image.
#[derive(Clone, Copy, Debug, PartialEq, Eq, Structural)]
pub struct ImageCreateInfo {
    pub image_type: ImageType,
    pub format: Format,
    pub extent: Extent3D,
    pub mip_levels: u32,
    pub array_layers: u32,
    pub samples: SampleCountFlags,
    pub tiling: ImageTiling,
    pub usage: ImageUsageFlags,
    pub sharing_mode: SharingMode,
    pub initial_layout: ImageLayout,
}

/// An image of the frame.
#[derive(Debug)]
pub struct ImageResource {
    pub name: String,
    pub create_info: ImageCreateInfo,
    /// Whether the backend has allocated storage, which freezes the usage flags.
    pub allocated: bool,
}

/// Why the tracker refused a request.
#[derive(Clone, Copy, Debug, PartialEq, Eq, Structural)]
pub enum ResourceError {
    /// The identifier names no image of the tracker.
    UnknownImage,
    /// The image has storage already, and the use was not declared before it
    /// was allocated.
    UsageNotDeclared,
    /// The image has storage already.
    AlreadyAllocated,
}

/// `image` with `usage` added to its usage flags.
pub open spec fn image_with_usage(image: ImageResource, usage: ImageUsageFlags) -> ImageResource {
    ImageResource {
        create_info: ImageCreateInfo { usage: image.create_info.usage | usage, ..image.create_info },
        ..image
    }
}

/// `image` after each use of `declared` has been declared for it in turn.
pub open spec fn image_with_usages(image: ImageResource, declared: Seq<ImageUsageFlags>) -> ImageResource
    decreases declared.len(),
{
    if declared.len() == 0 {
        image
    } else {
        image_with_usage(image_with_usages(image, declared.drop_last()), declared.last())
    }
}

/// The usage flags that result from declaring each use of `declared` in turn
/// on an image whose flags were `usage`.
pub open spec fn accumulate(usage: ImageUsageFlags, declared: Seq<ImageUsageFlags>) -> ImageUsageFlags
    decreases declared.len(),
{
    if declared.len() == 0 {
        usage
    } else {
        accumulate(usage, declared.drop_last()) | declared.last()
    }
}

/// Accumulated usage flags are the union of the flags at the start and of
/// every declared use: they include each of them, and every mask that
/// includes each of them includes the accumulated flags.
pub proof fn lemma_accumulate_is_union(
    usage: ImageUsageFlags,
    declared: Seq<ImageUsageFlags>,
    bound: ImageUsageFlags,
)
    ensures
        includes(accumulate(usage, declared), usage),
        forall|i: int|
            0 <= i < declared.len() ==> includes(accumulate(usage, declared), #[trigger] declared[i]),
        includes(bound, usage) && (forall|i: int|
            0 <= i < declared.len() ==> includes(bound, #[trigger] declared[i])) ==> includes(
            bound,
            accumulate(usage, declared),
        ),
    decreases declared.len(),
{
    if declared.len() == 0 {
        assert(usage | usage == usage) by (bit_vector);
    } else {
        let rest = declared.drop_last();
        let last = declared.last();
        let before = accumulate(usage, rest);
        lemma_accumulate_is_union(usage, rest, bound);
        assert(before | usage == before ==> (before | last) | usage == before | last) by (bit_vector);
        assert((before | last) | last == before | last) by (bit_vector);
        assert forall|i: int| 0 <= i < declared.len() implies includes(
            accumulate(usage, declared),
            #[trigger] declared[i],
        ) by {
            if i < rest.len() {
                let d = declared[i];
                assert(rest[i] == d);
                assert(before | d == before ==> (before | last) | d == before | last)
                    by (bit_vector);
            }
        }
        if includes(bound, usage) && (forall|i: int|
            0 <= i < declared.len() ==> includes(bound, #[trigger] declared[i])) {
            assert forall|i: int| 0 <= i < rest.len() implies includes(bound, #[trigger] rest[i]) by {
                assert(rest[i] == declared[i]);
            }
            assert(includes(bound, declared[declared.len() - 1]));
            assert(bound | before == bound && bound | last == bound ==> bound | (before | last)
                == bound) by (bit_vector);
        }
    }
}

/// The images after the use `usage` has been declared for image `id`.
pub open spec fn images_after_usage(
    images: Seq<ImageResource>,
    id: ImageId,
    usage: ImageUsageFlags,
) -> Seq<ImageResource> {
    images.update(id.0 as int, image_with_usage(images[id.0 as int], usage))
}

/// The images after the use `usage` has been declared for each image of `ids`
/// in turn.
pub open spec fn images_after_usages(
    images: Seq<ImageResource>,
    ids: Seq<ImageId>,
    usage: ImageUsageFlags,
) -> Seq<ImageResource>
    decreases ids.len(),
{
    if ids.len() == 0 {
        images
    } else {
        images_after_usage(images_after_usages(images, ids.drop_last(), usage), ids.last(), usage)
    }
}

/// Declaring a use never takes a flag away.
pub proof fn lemma_usage_only_grows(usage: ImageUsageFlags, declared: ImageUsageFlags)
    ensures
        includes(usage | declared, usage),
        includes(usage | declared, declared),
{
    assert((usage | declared) | usage == usage | declared) by (bit_vector);
    assert((usage | declared) | declared == usage | declared) by (bit_vector);
}

/// Declaring uses in turn changes nothing of an image but its usage flags,
/// which become the accumulated flags.
pub proof fn lemma_usage_after_declarations(image: ImageResource, declared: Seq<ImageUsageFlags>)
    ensures
        image_with_usages(image, declared) == (ImageResource {
            create_info: ImageCreateInfo {
                usage: accumulate(image.create_info.usage, declared),
                ..image.create_info
            },
            ..image
        }),
    decreases declared.len(),
{
    if declared.len() > 0 {
        lemma_usage_after_declarations(image, declared.drop_last());
    }
}

/// The images after each use of `declared` has been declared for image `id`
/// in turn.
pub open spec fn images_after_declarations(
    images: Seq<ImageResource>,
    id: ImageId,
    declared: Seq<ImageUsageFlags>,
) -> Seq<ImageResource>
    decreases declared.len(),
{
    if declared.len() == 0 {
        images
    } else {
        images_after_usage(
            images_after_declarations(images, id, declared.drop_last()),
            id,
            declared.last(),
        )
    }
}

/// Whatever uses are declared for an image before it is allocated, in
/// whatever number, the image is then allocated with their union: its usage
/// flags are the flags it was created with and every declared use,
/// accumulated, and nothing else about it or about any other image has
/// changed.
pub proof fn lemma_usage_at_allocation(
    images: Seq<ImageResource>,
    id: ImageId,
    declared: Seq<ImageUsageFlags>,
)
    requires
        id.0 < images.len(),
    ensures
        images_after_declarations(images, id, declared).len() == images.len(),
        forall|i: int|
            0 <= i < images.len() && i != id.0 ==> images_after_declarations(images, id, declared)[i]
                == images[i],
        images_after_declarations(images, id, declared)[id.0 as int] == image_with_usages(
            images[id.0 as int],
            declared,
        ),
        images_after_declarations(images, id, declared)[id.0 as int].create_info.usage
            == accumulate(images[id.0 as int].create_info.usage, declared),
        images_after_declarations(images, id, declared)[id.0 as int].allocated
            == images[id.0 as int].allocated,
    decreases declared.len(),
{
    lemma_usage_after_declarations(images[id.0 as int], declared);
    if declared.len() > 0 {
        lemma_usage_at_allocation(images, id, declared.drop_last());
    }
}

/// The positions, among the first `upto` images, of the images that have no
/// storage yet, in ascending order.
pub open spec fn pending_images(images: Seq<ImageResource>, upto: int) -> Seq<int>
    decreases upto,
{
    if upto <= 0 {
        Seq::empty()
    } else if !images[upto - 1].allocated {
        pending_images(images, upto - 1).push(upto - 1)
    } else {
        pending_images(images, upto - 1)
    }
}

/// Whether `allocations` names the images among the first `upto` that have no
/// storage yet, in the order of the images, each by its position and with
/// what the backend allocates it with: its creation parameters, usage
/// included.
pub open spec fn allocates(
    allocations: Seq<(ImageId, ImageCreateInfo)>,
    images: Seq<ImageResource>,
    upto: int,
) -> bool {
    &&& allocations.len() == pending_images(images, upto).len()
    &&& forall|k: int|
        0 <= k < allocations.len() ==> {
            &&& (#[trigger] allocations[k]).0.0 == pending_images(images, upto)[k]
            &&& allocations[k].1 == images[pending_images(images, upto)[k]].create_info
        }
}

/// The pending images are images without storage, each named once, in
/// ascending order, and no image without storage is left out.
pub proof fn lemma_pending_images(images: Seq<ImageResource>, upto: int)
    requires
        0 <= upto <= images.len(),
    ensures
        forall|k: int|
            0 <= k < pending_images(images, upto).len() ==> 0 <= (#[trigger] pending_images(
                images,
                upto,
            )[k]) < upto && !images[pending_images(images, upto)[k]].allocated,
        forall|k: int, l: int|
            0 <= k < l < pending_images(images, upto).len() ==> pending_images(images, upto)[k]
                < pending_images(images, upto)[l],
        forall|i: int|
            0 <= i < upto && !(#[trigger] images[i]).allocated ==> pending_images(
                images,
                upto,
            ).contains(i),
    decreases upto,
{
    if upto > 0 {
        lemma_pending_images(images, upto - 1);
        let before = pending_images(images, upto - 1);
        let now = pending_images(images, upto);
        assert forall|i: int| 0 <= i < upto && !(#[trigger] images[i]).allocated implies now.contains(
            i,
        ) by {
            if i < upto - 1 {
                assert(before.contains(i));
                let k = choose|k: int| 0 <= k < before.len() && before[k] == i;
                assert(now[k] == i);
            } else {
                assert(now[now.len() - 1] == i);
            }
        }
    }
}

/// `image` with storage.
pub open spec fn allocated(image: ImageResource) -> ImageResource {
    ImageResource { allocated: true, ..image }
}

/// The images of a frame.
pub struct Resources {
    images: Vec<ImageResource>,
}

impl Resources {
    /// The images, in the order in which they were declared.
    pub closed spec fn images(&self) -> Seq<ImageResource> {
        self.images@
    }

    /// Whether `id` names an image of this tracker.
    pub open spec fn has_image(&self, id: ImageId) -> bool {
        id.0 < self.images().len()
    }

    /// The usage flags declared so far for the image `id`.
    pub open spec fn usage_of(&self, id: ImageId) -> ImageUsageFlags
        recommends
            self.has_image(id),
    {
        self.images()[id.0 as int].create_info.usage
    }

    /// What `add_or_check_image_usage` answers for the use `usage` of image `id`.
    pub open spec fn check_usage(&self, id: ImageId, usage: ImageUsageFlags) -> Result<
        (),
        ResourceError,
    > {
        if !self.has_image(id) {
            Err(ResourceError::UnknownImage)
        } else if self.images()[id.0 as int].allocated && !includes(self.usage_of(id), usage) {
            Err(ResourceError::UsageNotDeclared)
        } else {
            Ok(())
        }
    }

    /// The images after the use `usage` has been declared for image `id`.
    pub open spec fn images_with_usage(&self, id: ImageId, usage: ImageUsageFlags) -> Seq<
        ImageResource,
    >
        recommends
            self.has_image(id),
    {
        images_after_usage(self.images(), id, usage)
    }

    /// On an image that has storage, a use with a flag that was not declared
    /// before the storage was allocated is refused, and a use without such a
    /// flag is accepted and changes nothing.
    pub proof fn lemma_use_after_allocation(&self, id: ImageId, usage: ImageUsageFlags)
        requires
            self.has_image(id),
            self.images()[id.0 as int].allocated,
        ensures
            !includes(self.usage_of(id), usage) <==> self.check_usage(id, usage) == Err::<
                (),
                ResourceError,
            >(ResourceError::UsageNotDeclared),
            includes(self.usage_of(id), usage) <==> self.check_usage(id, usage) is Ok,
            includes(self.usage_of(id), usage) ==> self.images_with_usage(id, usage)
                == self.images(),
    {
        if includes(self.usage_of(id), usage) {
            assert(self.images_with_usage(id, usage) =~= self.images());
        }
    }

    /// A tracker without images.
    pub fn new() -> (resources: Resources)
        ensures
            resources.images().len() == 0,
    {
        Resources { images: Vec::new() }
    }

    /// The number of images.
    pub fn image_count(&self) -> (n: usize)
        ensures
            n == self.images().len(),
    {
        self.images.len()
    }

    /// Declares an image that the frame creates. Its storage is allocated
    /// later, so uses can still be declared for it.
    pub fn create_image(&mut self, name: String, info: ImageCreateInfo) -> (id: ImageId)
        ensures
            id.0 == old(self).images().len(),
            final(self).images() == old(self).images().push(
                ImageResource { name, create_info: info, allocated: false },
            ),
    {
        let id = ImageId(self.images.len());
        self.images.push(ImageResource { name, create_info: info, allocated: false });
        id
    }

    /// Declares an image that exists already. Its usage flags are frozen at
    /// those of `info`.
    pub fn import_image(&mut self, name: String, info: ImageCreateInfo) -> (id: ImageId)
        ensures
            id.0 == old(self).images().len(),
            final(self).images() == old(self).images().push(
                ImageResource { name, create_info: info, allocated: true },
            ),
    {
        let id = ImageId(self.images.len());
        self.images.push(ImageResource { name, create_info: info, allocated: true });
        id
    }

    /// Whether the use `usage` of image `id` would be accepted, and if not,
    /// why not. Nothing changes.
    pub fn check_image_usage(&self, id: ImageId, usage: ImageUsageFlags) -> (result: Result<
        (),
        ResourceError,
    >)
        ensures
            result == self.check_usage(id, usage),
    {
        if id.0 >= self.images.len() {
            return Err(ResourceError::UnknownImage);
        }
        let declared = self.images[id.0].create_info.usage;
        if self.images[id.0].allocated && (declared | usage) != declared {
            return Err(ResourceError::UsageNotDeclared);
        }
        Ok(())
    }

    /// Declares that image `id` is used as `usage`.
    ///
    /// On an image without storage the flags are added to those declared so
    /// far. On an image with storage nothing changes, and the use is refused
    /// unless its flags were all declared before the storage was allocated.
    pub fn add_or_check_image_usage(&mut self, id: ImageId, usage: ImageUsageFlags) -> (result:
        Result<(), ResourceError>)
        ensures
            result == old(self).check_usage(id, usage),
            result is Ok ==> final(self).images() == old(self).images_with_usage(id, usage),
            result is Err ==> final(self).images() == old(self).images(),
    {
        if id.0 >= self.images.len() {
            return Err(ResourceError::UnknownImage);
        }
        let declared = self.images[id.0].create_info.usage;
        let grown = declared | usage;
        if self.images[id.0].allocated {
            if grown != declared {
                return Err(ResourceError::UsageNotDeclared);
            }
            assert(self.images() =~= self.images_with_usage(id, usage));
            return Ok(());
        }
        self.images[id.0].create_info.usage = grown;
        assert(self.images() =~= old(self).images_with_usage(id, usage));
        Ok(())
    }

    /// What the backend needs to know of image `id`, with the uses declared
    /// so far.
    pub fn get_image_create_info(&self, id: ImageId) -> (info: Option<ImageCreateInfo>)
        ensures
            info == if self.has_image(id) {
                Some(self.images()[id.0 as int].create_info)
            } else {
                None
            },
    {
        if id.0 < self.images.len() {
            Some(self.images[id.0].create_info)
        } else {
            None
        }
    }

    /// Whether image `id` has storage. An identifier that names no image has
    /// none.
    pub fn is_allocated(&self, id: ImageId) -> (allocated: bool)
        ensures
            allocated == (self.has_image(id) && self.images()[id.0 as int].allocated),
    {
        id.0 < self.images.len() && self.images[id.0].allocated
    }

    /// Freezes the usage flags of every image that has no storage yet, and
    /// returns what the backend allocates each of them with: the creation
    /// parameters, with every use declared up to now.
    pub fn allocate_all(&mut self) -> (allocations: Vec<(ImageId, ImageCreateInfo)>)
        ensures
            allocates(allocations@, old(self).images(), old(self).images().len() as int),
            final(self).images().len() == old(self).images().len(),
            forall|i: int|
                0 <= i < old(self).images().len() ==> #[trigger] final(self).images()[i]
                    == allocated(old(self).images()[i]),
    {
        let mut allocations: Vec<(ImageId, ImageCreateInfo)> = Vec::new();
        let mut i: usize = 0;
        while i < self.images.len()
            invariant
                i <= self.images().len(),
                self.images().len() == old(self).images().len(),
                allocates(allocations@, old(self).images(), i as int),
                forall|j: int|
                    0 <= j < i ==> #[trigger] self.images()[j] == allocated(old(self).images()[j]),
                forall|j: int|
                    i <= j < self.images().len() ==> #[trigger] self.images()[j] == old(self).images()[j],
            decreases self.images().len() - i,
        {
            if !self.images[i].allocated {
                allocations.push((ImageId(i), self.images[i].create_info));
                self.images[i].allocated = true;
            }
            i = i + 1;
        }
        allocations
    }

    /// Freezes the usage flags of image `id` and returns what the backend
    /// allocates it with: the creation parameters, with every use declared up
    /// to now.
    pub fn allocate_image(&mut self, id: ImageId) -> (result: Result<ImageCreateInfo, ResourceError>)
        ensures
            result == if !old(self).has_image(id) {
                Err::<ImageCreateInfo, ResourceError>(ResourceError::UnknownImage)
            } else if old(self).images()[id.0 as int].allocated {
                Err(ResourceError::AlreadyAllocated)
            } else {
                Ok(old(self).images()[id.0 as int].create_info)
            },
            result is Ok ==> final(self).images() == old(self).images().update(
                id.0 as int,
                ImageResource { allocated: true, ..old(self).images()[id.0 as int] },
            ),
            result is Err ==> final(self).images() == old(self).images(),
    {
        if id.0 >= self.images.len() {
            return Err(ResourceError::UnknownImage);
        }
        if self.images[id.0].allocated {
            return Err(ResourceError::AlreadyAllocated);
        }
        self.images[id.0].allocated = true;
        assert(self.images() =~= old(self).images().update(
            id.0 as int,
            ImageResource { allocated: true, ..old(self).images()[id.0 as int] },
        ));
        Ok(self.images[id.0].create_info)
    }
}

} // verus!
