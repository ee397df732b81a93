use vstd::prelude::*;

verus! {

/// One 32x32-tile chunk of a map, stored in its own resource.
pub struct MapChunk {
    /// Name of the resource that holds the chunk.
    pub filename: String,
}

impl Clone for MapChunk {
    fn clone(&self) -> (r: Self)
        ensures
            r == *self,
    {
        MapChunk { filename: self.filename.clone() }
    }
}

/// The description of one map.
pub struct MapEntry {
    /// The map's display name.
    pub name: String,
    /// Height in tiles.
    pub height: usize,
    /// Width in tiles.
    pub width: usize,
    /// The chunks, left to right and top to bottom.
    pub chunks: Vec<MapChunk>,
}

/// Two map descriptions say the same.
pub open spec fn same_entry(a: MapEntry, b: MapEntry) -> bool {
    &&& a.name == b.name
    &&& a.height == b.height
    &&& a.width == b.width
    &&& a.chunks@ == b.chunks@
}

impl Clone for MapEntry {
    fn clone(&self) -> (r: Self)
        ensures
            same_entry(r, *self),
    {
        let mut chunks: Vec<MapChunk> = Vec::new();
        let mut i: usize = 0;
        while i < self.chunks.len()
            invariant
                i <= self.chunks@.len(),
                chunks@ == self.chunks@.subrange(0, i as int),
            decreases self.chunks@.len() - i,
        {
            chunks.push(self.chunks[i].clone());
            i = i + 1;
            assert(chunks@ =~= self.chunks@.subrange(0, i as int));
        }
        assert(chunks@ =~= self.chunks@);
        let r = MapEntry {
            name: self.name.clone(),
            height: self.height,
            width: self.width,
            chunks,
        };
        r
    }
}

impl MapEntry {
    /// The map's size in 32x32-tile chunks, as (width, height).
    pub fn size_in_chunks(&self) -> (r: (usize, usize))
        ensures
            r.0 == self.width / 32,
            r.1 == self.height / 32,
    {
        (self.width / 32, self.height / 32)
    }
}

/// All maps that can be played.
pub struct Maps {
    pub maps: Vec<MapEntry>,
}

impl Maps {
    /// The first map with the given name, if any.
    pub fn get_by_name(&self, name: &str) -> (r: Option<MapEntry>)
        ensures
            match r {
                Some(e) => exists|i: int|
                    0 <= i < self.maps@.len() && same_entry(e, self.maps@[i]) && e.name@ == name@ && forall|
                        j: int,
                    |
                        0 <= j < i ==> (#[trigger] self.maps@[j]).name@ != name@,
                None => forall|i: int|
                    0 <= i < self.maps@.len() ==> (#[trigger] self.maps@[i]).name@ != name@,
            },
    {
        let wanted = name.to_owned();
        let mut i: usize = 0;
        while i < self.maps.len()
            invariant
                i <= self.maps@.len(),
                wanted@ == name@,
                forall|j: int| 0 <= j < i ==> (#[trigger] self.maps@[j]).name@ != name@,
            decreases self.maps@.len() - i,
        {
            if self.maps[i].name == wanted {
                return Some(self.maps[i].clone());
            }
            i = i + 1;
        }
        None
    }
}

} // verus!
