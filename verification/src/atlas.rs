//! The sprite atlas owned by the glyph cache: an append-only collection of
//! four-channel glyph images, each under a slot identifier that is never
//! reused. Uploading the images to a texture and packing them into a shared
//! surface is the renderer's side of the contract; this side owns the images
//! and the slot numbering.

use vstd::prelude::*;

verus! {

/// A four-channel image: `4 * width * height` bytes, row-major from the
/// top-left corner.
#[derive(Debug, Clone)]
pub struct Image {
    pub width: usize,
    pub height: usize,
    pub bytes: Vec<u8>,
}

/// The mathematical content of an [`Image`].
#[verifier::ext_equal]
pub ghost struct ImageModel {
    pub width: int,
    pub height: int,
    pub bytes: Seq<u8>,
}

impl View for Image {
    type V = ImageModel;

    open spec fn view(&self) -> ImageModel {
        ImageModel { width: self.width as int, height: self.height as int, bytes: self.bytes@ }
    }
}

pub open spec fn image_wf(img: ImageModel) -> bool {
    img.bytes.len() == 4 * img.width * img.height
}

/// One cached sprite: a slot identifier and the image stored under it.
#[derive(Debug, Clone)]
pub struct Sprite {
    pub id: u64,
    pub image: Image,
}

/// The mathematical content of a [`Sprite`].
#[verifier::ext_equal]
pub ghost struct SpriteModel {
    pub id: u64,
    pub image: ImageModel,
}

impl View for Sprite {
    type V = SpriteModel;

    open spec fn view(&self) -> SpriteModel {
        SpriteModel { id: self.id, image: self.image@ }
    }
}

/// Slot identifiers are assigned in order: the sprite at position `i` holds
/// identifier `i`, so identifiers are unique and never reused, and every
/// stored image is well formed.
pub open spec fn atlas_wf(sprites: Seq<SpriteModel>) -> bool {
    forall|i: int|
        0 <= i < sprites.len() ==> (#[trigger] sprites[i]).id == i && image_wf(sprites[i].image)
}

/// The append-only sprite store.
#[derive(Debug)]
pub struct Atlas {
    sprites: Vec<Sprite>,
}

impl View for Atlas {
    type V = Seq<SpriteModel>;

    closed spec fn view(&self) -> Seq<SpriteModel> {
        Seq::new(self.sprites@.len(), |i: int| self.sprites@[i]@)
    }
}

impl Atlas {
    pub open spec fn wf(&self) -> bool {
        atlas_wf(self@)
    }

    /// An empty atlas; the first sprite will get slot 0.
    pub fn new() -> (r: Self)
        ensures
            r.wf(),
            r@ == Seq::<SpriteModel>::empty(),
    {
        let r = Atlas { sprites: Vec::new() };
        proof {
            assert(r@ =~= Seq::<SpriteModel>::empty());
        }
        r
    }

    pub fn len(&self) -> (r: usize)
        ensures
            r == self@.len(),
    {
        self.sprites.len()
    }

    /// Stores an image under the next free slot identifier and returns that
    /// identifier.
    pub fn add_sprite(&mut self, image: Image) -> (id: u64)
        requires
            old(self).wf(),
            image_wf(image@),
        ensures
            final(self).wf(),
            id == old(self)@.len(),
            final(self)@ == old(self)@.push(SpriteModel { id, image: image@ }),
    {
        let id = self.sprites.len() as u64;
        let ghost pre = self@;
        self.sprites.push(Sprite { id, image });
        proof {
            assert(self@ =~= pre.push(self.sprites@.last()@));
        }
        id
    }

    /// Looks a sprite up by its slot identifier.
    pub fn get(&self, id: u64) -> (r: Option<&Sprite>)
        requires
            self.wf(),
        ensures
            match r {
                Some(s) => id < self@.len() && s@ == self@[id as int],
                None => id >= self@.len(),
            },
    {
        if id < self.sprites.len() as u64 {
            Some(&self.sprites[id as usize])
        } else {
            None
        }
    }
}

} // verus!
