use vstd::prelude::*;

verus! {

/// Placement of one named sprite inside a sheet image, in pixels.
#[derive(Debug)]
pub struct SpriteInfo {
    pub name: String,
    pub x: i32,
    pub y: i32,
    pub width: i32,
    pub height: i32,
}

/// The description of a sprite sheet, as the host reads it from the sheet's
/// metadata file: a sheet name, the image files the sheet is available as
/// (keyed by a variant name such as a color), and the sprites it contains.
///
/// The host turns one of the image paths into a loaded image; the lookups
/// here decide which path and which sprite region, and failing to find a
/// name is the resource error the original reported.
#[derive(Debug)]
pub struct SheetInfo {
    pub name: String,
    pub files: Vec<(String, String)>,
    pub sprites: Vec<SpriteInfo>,
}

/// Whether some file entry carries the asked-for key.
pub open spec fn has_file_key(files: Seq<(String, String)>, key: Seq<char>) -> bool {
    exists|i: int| 0 <= i < files.len() && (#[trigger] files[i]).0@ == key
}

/// Whether some sprite carries the asked-for name.
pub open spec fn has_sprite_name(sprites: Seq<SpriteInfo>, name: Seq<char>) -> bool {
    exists|i: int| 0 <= i < sprites.len() && (#[trigger] sprites[i]).name@ == name
}

impl SheetInfo {
    /// Look up the image path registered under `file_name`.
    ///
    /// Returns the path of the first entry with that key, and `None` exactly
    /// when no entry has it — the case the sheet loader turns into a
    /// resource error.
    pub fn file_for(&self, file_name: &String) -> (r: Option<&String>)
        ensures
            r is Some <==> has_file_key(self.files@, file_name@),
            match r {
                Some(path) => exists|i: int|
                    {
                        &&& 0 <= i < self.files@.len()
                        &&& (#[trigger] self.files@[i]).0@ == file_name@
                        &&& *path == self.files@[i].1
                        &&& forall|j: int| 0 <= j < i ==> (#[trigger] self.files@[j]).0@ != file_name@
                    },
                None => true,
            },
    {
        let mut i: usize = 0;
        while i < self.files.len()
            invariant
                i <= self.files@.len(),
                forall|j: int| 0 <= j < i ==> (#[trigger] self.files@[j]).0@ != file_name@,
            decreases self.files@.len() - i,
        {
            if self.files[i].0.eq(file_name) {
                proof {
                    assert(self.files@[i as int].0@ == file_name@);
                }
                return Some(&self.files[i].1);
            }
            i = i + 1;
        }
        None
    }

    /// Look up the placement of the sprite called `sprite_name`.
    ///
    /// Returns the first sprite with that name, and `None` exactly when the
    /// sheet has no such sprite — the case the original logged and reported
    /// as a missing-sprite error.
    pub fn sprite_named(&self, sprite_name: &String) -> (r: Option<&SpriteInfo>)
        ensures
            r is Some <==> has_sprite_name(self.sprites@, sprite_name@),
            match r {
                Some(sprite) => exists|i: int|
                    {
                        &&& 0 <= i < self.sprites@.len()
                        &&& (#[trigger] self.sprites@[i]).name@ == sprite_name@
                        &&& *sprite == self.sprites@[i]
                        &&& forall|j: int|
                            0 <= j < i ==> (#[trigger] self.sprites@[j]).name@ != sprite_name@
                    },
                None => true,
            },
    {
        let mut i: usize = 0;
        while i < self.sprites.len()
            invariant
                i <= self.sprites@.len(),
                forall|j: int| 0 <= j < i ==> (#[trigger] self.sprites@[j]).name@ != sprite_name@,
            decreases self.sprites@.len() - i,
        {
            if self.sprites[i].name.eq(sprite_name) {
                proof {
                    assert(self.sprites@[i as int].name@ == sprite_name@);
                }
                return Some(&self.sprites[i]);
            }
            i = i + 1;
        }
        None
    }
}

} // verus!
