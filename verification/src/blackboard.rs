//! A blackboard: resources of a frame, found by name.
//!
//! A blackboard remembers under which name a resource was created, so that
//! the next request for the name finds the resource instead of creating it
//! again. Blackboards form a chain: what is not found in one is looked up in
//! its parent. The resources themselves live in arenas; a blackboard holds
//! only their slots.

use crate::flags::Format;
use crate::image::{MipmapsCount, get_texture_mip_map_count, longer, mip_chain_length};
use vstd::hash_map::StringHashMap;
use vstd::prelude::*;

verus! {

/// What a one-dimensional image on a blackboard is.
#[derive(Copy, Clone, Debug, Eq, PartialEq, Hash, Structural)]
pub struct ImageDesc1d {
    pub format: Format,
    pub width: u32,
    pub mips: u32,
}

/// What a two-dimensional image on a blackboard is.
#[derive(Copy, Clone, Debug, Eq, PartialEq, Hash, Structural)]
pub struct ImageDesc2d {
    pub format: Format,
    pub width: u32,
    pub height: u32,
    pub mips: u32,
}

/// What a three-dimensional image on a blackboard is.
#[derive(Copy, Clone, Debug, Eq, PartialEq, Hash, Structural)]
pub struct ImageDesc3d {
    pub format: Format,
    pub width: u32,
    pub height: u32,
    pub depth: u32,
    pub mips: u32,
}

/// A resource on a blackboard: what it is, and its slot in the arena that
/// owns it. A buffer carries the identity of the type of its contents, if it
/// is known.
#[derive(Copy, Clone, Debug, Eq, PartialEq, Structural)]
#[allow(inconsistent_fields)]
pub enum BlackboardResource {
    Image1d { desc: ImageDesc1d, img: usize },
    Image2d { desc: ImageDesc2d, img: usize },
    Image3d { desc: ImageDesc3d, img: usize },
    Buffer { size: usize, buf: usize, typeid: Option<u64> },
}

/// Why a request to a blackboard failed.
#[derive(Clone, Copy, Debug, PartialEq, Eq, Structural)]
pub enum BlackboardError {
    /// An image goes by the name, and it is not as the request describes it.
    DescriptionMismatch,
}

/// What a blackboard knows of a two-dimensional image that is asked for.
#[derive(Clone, Copy, Debug, PartialEq, Eq, Structural)]
pub enum Image2dLookup {
    /// The image exists, in this slot.
    Found(usize),
    /// No image goes by the name. The image is to be created as this
    /// description says, and entered under the name.
    Missing(ImageDesc2d),
}

/// The mip levels of a two-dimensional image of `width` by `height`.
pub open spec fn mips_2d(width: u32, height: u32, mipmaps: MipmapsCount) -> u32 {
    match mipmaps {
        MipmapsCount::Log2 => mip_chain_length(longer(width, height) as nat) as u32,
        MipmapsCount::Specific(count) => count,
        MipmapsCount::One => 1,
    }
}

/// What a two-dimensional image of the given format, size and mip levels is.
pub open spec fn image_desc_2d(format: Format, width: u32, height: u32, mipmaps: MipmapsCount) -> ImageDesc2d {
    ImageDesc2d { format, width, height, mips: mips_2d(width, height, mipmaps) }
}

/// What `Blackboard::image_2d` answers, given the resource that goes by the
/// name, if one does.
pub open spec fn lookup_2d(found: Option<BlackboardResource>, wanted: ImageDesc2d) -> Result<
    Image2dLookup,
    BlackboardError,
> {
    match found {
        Some(BlackboardResource::Image2d { desc, img }) => if desc == wanted {
            Ok(Image2dLookup::Found(img))
        } else {
            Err(BlackboardError::DescriptionMismatch)
        },
        _ => Ok(Image2dLookup::Missing(wanted)),
    }
}

/// A blackboard.
pub struct Blackboard<'a> {
    parent: Option<&'a Blackboard<'a>>,
    lookup: StringHashMap<BlackboardResource>,
}

impl<'a> Blackboard<'a> {
    /// The blackboard in which names are looked up that this one does not
    /// hold.
    pub closed spec fn parent(&self) -> Option<&'a Blackboard<'a>> {
        self.parent
    }

    /// The resources that this blackboard itself holds, by name.
    pub closed spec fn entries(&self) -> Map<Seq<char>, BlackboardResource> {
        self.lookup@
    }

    /// The resource that goes by `name`: the one that this blackboard holds
    /// under the name, or else the one that its parent knows by it.
    pub closed spec fn resource(&self, name: Seq<char>) -> Option<BlackboardResource>
        decreases self,
    {
        if self.lookup@.contains_key(name) {
            Some(self.lookup@[name])
        } else {
            match self.parent {
                Some(parent) => parent.resource(name),
                None => None,
            }
        }
    }

    /// How a name is resolved: in the blackboard's own entries, then in its
    /// parent.
    pub proof fn lemma_resource(&self, name: Seq<char>)
        ensures
            self.resource(name) == if self.entries().contains_key(name) {
                Some(self.entries()[name])
            } else {
                match self.parent() {
                    Some(parent) => parent.resource(name),
                    None => None,
                }
            },
    {
    }

    /// A blackboard without entries and without a parent.
    pub fn new() -> (blackboard: Blackboard<'a>)
        ensures
            blackboard.parent() is None,
            blackboard.entries() == Map::<Seq<char>, BlackboardResource>::empty(),
    {
        Blackboard { parent: None, lookup: StringHashMap::new() }
    }

    /// A blackboard without entries, which resolves in `parent` what it does
    /// not hold.
    pub fn with_parent(parent: &'a Blackboard<'a>) -> (blackboard: Blackboard<'a>)
        ensures
            blackboard.parent() == Some(parent),
            blackboard.entries() == Map::<Seq<char>, BlackboardResource>::empty(),
    {
        Blackboard { parent: Some(parent), lookup: StringHashMap::new() }
    }

    /// The resource that goes by `name`, here or up the chain.
    pub fn get_resource(&self, name: &str) -> (found: Option<BlackboardResource>)
        ensures
            found == self.resource(name@),
        decreases self,
    {
        match self.lookup.get(name) {
            Some(resource) => Some(*resource),
            None => match self.parent {
                Some(parent) => parent.get_resource(name),
                None => None,
            },
        }
    }

    /// The slot of the buffer that goes by `name`, if a buffer does and its
    /// contents are known to be of the type `typeid`.
    pub fn buffer_by_name(&self, name: &str, typeid: u64) -> (found: Option<usize>)
        ensures
            found == match self.resource(name@) {
                Some(BlackboardResource::Buffer { size, buf, typeid: Some(known) }) => if known
                    == typeid {
                    Some(buf)
                } else {
                    None
                },
                _ => None,
            },
    {
        match self.get_resource(name) {
            Some(BlackboardResource::Buffer { size, buf, typeid: Some(known) }) => {
                if known == typeid {
                    Some(buf)
                } else {
                    None
                }
            },
            _ => None,
        }
    }

    /// The slot of the two-dimensional image that goes by `name`, if one
    /// does.
    pub fn image_2d_by_name(&self, name: &str) -> (found: Option<usize>)
        ensures
            found == match self.resource(name@) {
                Some(BlackboardResource::Image2d { desc, img }) => Some(img),
                _ => None,
            },
    {
        match self.get_resource(name) {
            Some(BlackboardResource::Image2d { desc, img }) => Some(img),
            _ => None,
        }
    }

    /// Looks for a two-dimensional image named `name` that is to have the
    /// given format, size and mip levels.
    ///
    /// If a two-dimensional image goes by the name, it must be as described:
    /// then its slot is the answer, and otherwise the request is in error. If
    /// none does, the answer is the description of the image, with its mip
    /// levels counted: the image is to be created so, and entered with
    /// `insert`.
    pub fn image_2d(&self, name: &str, format: Format, width: u32, height: u32, mipmaps: MipmapsCount) -> (result:
        Result<Image2dLookup, BlackboardError>)
        ensures
            result == lookup_2d(self.resource(name@), image_desc_2d(format, width, height, mipmaps)),
    {
        let mips = match mipmaps {
            MipmapsCount::Log2 => {
                let side = if width >= height {
                    width
                } else {
                    height
                };
                get_texture_mip_map_count(side)
            },
            MipmapsCount::Specific(count) => count,
            MipmapsCount::One => 1,
        };
        let wanted = ImageDesc2d { format, width, height, mips };
        match self.get_resource(name) {
            Some(BlackboardResource::Image2d { desc, img }) => {
                if same_format(desc.format, format) && desc.width == width && desc.height == height
                    && desc.mips == mips {
                    Ok(Image2dLookup::Found(img))
                } else {
                    Err(BlackboardError::DescriptionMismatch)
                }
            },
            _ => Ok(Image2dLookup::Missing(wanted)),
        }
    }

    /// Enters `resource` under `name` in this blackboard, in place of what it
    /// held under the name. Every other name resolves as before.
    pub fn insert(&mut self, name: &str, resource: BlackboardResource)
        ensures
            final(self).parent() == old(self).parent(),
            final(self).entries() == old(self).entries().insert(name@, resource),
            forall|other: Seq<char>|
                #[trigger] final(self).resource(other) == if other == name@ {
                    Some(resource)
                } else {
                    old(self).resource(other)
                },
    {
        self.lookup.insert(name.to_owned(), resource);
    }
}

fn same_format(a: Format, b: Format) -> (same: bool)
    ensures
        same == (a == b),
{
    a == b
}

} // verus!
