//! Sprites: named, positioned sub-grids of cells that the Render layer
//! draws into, composed onto the frame buffer each tick.

use crate::buffer::{Buffer, Cell};
use vstd::prelude::*;

verus! {

/// One sprite: a cell grid of its own, placed at `(x, y)` on the frame.
pub struct Sprite {
    pub x: u16,
    pub y: u16,
    pub content: Buffer,
}

impl Sprite {
    pub open spec fn wf(self) -> bool {
        self.content.wf()
    }

    /// A blank sprite of the given size at the given position.
    pub fn new(x: u16, y: u16, width: u16, height: u16) -> (r: Sprite)
        ensures
            r.wf(),
            r.x == x,
            r.y == y,
            r.content.width == width,
            r.content.height == height,
            forall|p: int|
                0 <= p < r.content.cells@.len() ==> r.content.cells@[p] == Cell::spec_blank(),
    {
        Sprite { x, y, content: Buffer::new(width, height) }
    }
}

/// Whether `i` is the first index holding `tag`.
pub open spec fn spec_first_tag(tags: Seq<String>, tag: Seq<char>, i: int) -> bool {
    &&& 0 <= i < tags.len()
    &&& tags[i]@ == tag
    &&& forall|j: int| 0 <= j < i ==> tags[j]@ != tag
}

/// A named collection of sprites; `tags[i]` names `sprites[i]`, and sprites
/// are composed in insertion order (later sprites paint over earlier ones).
pub struct Sprites {
    pub name: String,
    pub tags: Vec<String>,
    pub sprites: Vec<Sprite>,
}

impl Sprites {
    pub open spec fn wf(self) -> bool {
        &&& self.tags@.len() == self.sprites@.len()
        &&& forall|i: int| 0 <= i < self.sprites@.len() ==> self.sprites@[i].wf()
    }

    /// Whether a sprite is stored under `tag`.
    pub open spec fn spec_has_tag(self, tag: Seq<char>) -> bool {
        exists|i: int| 0 <= i < self.tags@.len() && self.tags@[i]@ == tag
    }

    pub fn new(name: &str) -> (r: Sprites)
        ensures
            r.wf(),
            r.name@ == name@,
            r.sprites@.len() == 0,
    {
        Sprites { name: name.to_owned(), tags: Vec::new(), sprites: Vec::new() }
    }

    /// Add a sprite under a tag.
    pub fn add_by_tag(&mut self, sprite: Sprite, tag: &str)
        requires
            old(self).wf(),
            sprite.wf(),
        ensures
            final(self).wf(),
            final(self).tags@.len() == old(self).tags@.len() + 1,
            forall|j: int| 0 <= j < old(self).tags@.len() ==> final(self).tags@[j] == old(
                self,
            ).tags@[j],
            final(self).tags@.last()@ == tag@,
            final(self).sprites@ == old(self).sprites@.push(sprite),
            final(self).spec_has_tag(tag@),
    {
        self.tags.push(tag.to_owned());
        self.sprites.push(sprite);
        proof {
            let k = self.tags@.len() - 1;
            assert(self.tags@[k]@ == tag@);
        }
    }

    /// Runtime check of the collection invariant, complete in both
    /// directions, for hooks whose interface promises nothing of the scene.
    pub fn check_wf(&self) -> (r: bool)
        ensures
            r == self.wf(),
    {
        let n = self.sprites.len();
        if self.tags.len() != n {
            return false;
        }
        let mut i: usize = 0;
        while i < n
            invariant
                n == self.sprites@.len(),
                i <= n,
                forall|j: int| 0 <= j < i ==> (#[trigger] self.sprites@[j]).wf(),
            decreases n - i,
        {
            let sp = &self.sprites[i];
            let w: usize = sp.content.width as usize;
            let h: usize = sp.content.height as usize;
            proof {
                assert((w as int) * (h as int) <= 0xFFFF * 0xFFFF) by (nonlinear_arith)
                    requires
                        0 <= (w as int) <= 0xFFFF,
                        0 <= (h as int) <= 0xFFFF,
                ;
            }
            if sp.content.cells.len() != w * h {
                proof {
                    assert(!self.sprites@[i as int].wf());
                }
                return false;
            }
            i = i + 1;
        }
        true
    }

    /// Index of the first sprite stored under `tag`, if any.
    pub fn index_of(&self, tag: &str) -> (r: Option<usize>)
        ensures
            match r {
                Some(i) => spec_first_tag(self.tags@, tag@, i as int),
                None => !self.spec_has_tag(tag@),
            },
    {
        let tag_s: String = tag.to_owned();
        let n = self.tags.len();
        let mut i: usize = 0;
        while i < n
            invariant
                n == self.tags@.len(),
                tag_s@ == tag@,
                i <= n,
                forall|j: int| 0 <= j < i ==> self.tags@[j]@ != tag@,
            decreases n - i,
        {
            if self.tags[i] == tag_s {
                return Some(i);
            }
            i = i + 1;
        }
        None
    }

    /// Take the sprite at index `i` out, leaving a placeholder; pair with
    /// `put` to mutate a sprite in place.
    pub fn take(&mut self, i: usize) -> (r: Sprite)
        requires
            old(self).wf(),
            i < old(self).sprites@.len(),
        ensures
            final(self).wf(),
            r == old(self).sprites@[i as int],
            r.wf(),
            final(self).tags@ == old(self).tags@,
            final(self).sprites@.len() == old(self).sprites@.len(),
            forall|j: int|
                0 <= j < old(self).sprites@.len() && j != i ==> final(self).sprites@[j] == old(
                    self,
                ).sprites@[j],
    {
        let mut tmp = Sprite::new(0, 0, 0, 0);
        self.sprites.set_and_swap(i, &mut tmp);
        proof {
            assert forall|j: int| 0 <= j < self.sprites@.len() implies self.sprites@[j].wf() by {
                if j != i as int {
                    assert(self.sprites@[j] == old(self).sprites@[j]);
                }
            }
        }
        tmp
    }

    /// Put a sprite back at index `i`.
    pub fn put(&mut self, i: usize, sprite: Sprite)
        requires
            old(self).wf(),
            sprite.wf(),
            i < old(self).sprites@.len(),
        ensures
            final(self).wf(),
            final(self).tags@ == old(self).tags@,
            final(self).sprites@ == old(self).sprites@.update(i as int, sprite),
    {
        self.sprites.set(i, sprite);
        proof {
            assert forall|j: int| 0 <= j < self.sprites@.len() implies self.sprites@[j].wf() by {
                if j != i as int {
                    assert(self.sprites@[j] == old(self).sprites@[j]);
                }
            }
        }
    }
}

} // verus!
