//! The asset store: raw asset bytes looked up by URL, one entry per URL.
//! The engine only requires that the Render layer can query what the host
//! loaded.

use vstd::prelude::*;

verus! {

/// One loaded asset: its URL and its raw bytes.
pub struct AssetEntry {
    pub url: String,
    pub data: Vec<u8>,
}

/// Process-wide asset store, owned by the `Context`.
pub struct AssetManager {
    pub assets: Vec<AssetEntry>,
}

impl AssetManager {
    /// The store invariant: at most one entry per URL, so a lookup's
    /// answer is the last bytes stored.
    pub open spec fn wf(self) -> bool {
        forall|i: int, j: int|
            0 <= i < j < self.assets@.len() ==> self.assets@[i].url@ != self.assets@[j].url@
    }

    /// Whether some entry is stored under `url`.
    pub open spec fn spec_has(self, url: Seq<char>) -> bool {
        exists|i: int| 0 <= i < self.assets@.len() && self.assets@[i].url@ == url
    }

    pub fn new() -> (r: AssetManager)
        ensures
            r.assets@.len() == 0,
            r.wf(),
    {
        AssetManager { assets: Vec::new() }
    }

    /// Index of the entry stored under `url`, if any.
    fn find(&self, url: &String) -> (r: Option<usize>)
        ensures
            match r {
                Some(i) => i < self.assets@.len() && self.assets@[i as int].url@ == url@,
                None => !self.spec_has(url@),
            },
    {
        let n = self.assets.len();
        let mut i: usize = 0;
        while i < n
            invariant
                n == self.assets@.len(),
                i <= n,
                forall|j: int| 0 <= j < i ==> self.assets@[j].url@ != url@,
            decreases n - i,
        {
            if self.assets[i].url == *url {
                return Some(i);
            }
            i = i + 1;
        }
        None
    }

    /// Store `data` under `url`: the entry for that URL now holds exactly
    /// these bytes, every other entry is untouched, and a URL seen for the
    /// first time gains one entry at the end.
    pub fn set_data(&mut self, url: &str, data: Vec<u8>)
        requires
            old(self).wf(),
        ensures
            final(self).wf(),
            final(self).spec_has(url@),
            old(self).spec_has(url@) ==> {
                &&& final(self).assets@.len() == old(self).assets@.len()
                &&& forall|j: int|
                    0 <= j < old(self).assets@.len() && old(self).assets@[j].url@ != url@
                        ==> final(self).assets@[j] == old(self).assets@[j]
                &&& forall|j: int|
                    0 <= j < old(self).assets@.len() && old(self).assets@[j].url@ == url@
                        ==> final(self).assets@[j].url@ == url@ && final(self).assets@[j].data@
                        == data@
            },
            !old(self).spec_has(url@) ==> {
                &&& final(self).assets@.len() == old(self).assets@.len() + 1
                &&& (forall|j: int|
                    0 <= j < old(self).assets@.len() ==> final(self).assets@[j] == old(
                        self,
                    ).assets@[j])
                &&& final(self).assets@.last().url@ == url@
                &&& final(self).assets@.last().data@ == data@
            },
    {
        let url_s: String = url.to_owned();
        match self.find(&url_s) {
            Some(i) => {
                self.assets.set(i, AssetEntry { url: url_s, data });
                proof {
                    assert(self.assets@[i as int].url@ == url@);
                    assert forall|j: int|
                        0 <= j < old(self).assets@.len() && old(self).assets@[j].url@ == url@
                        implies j == i as int by {
                        if j < i as int {
                            assert(old(self).assets@[j].url@ != old(self).assets@[i as int].url@);
                        } else if j > i as int {
                            assert(old(self).assets@[i as int].url@ != old(self).assets@[j].url@);
                        }
                    }
                    assert forall|a: int, b: int| 0 <= a < b < self.assets@.len() implies self.assets@[
                        a
                    ].url@ != self.assets@[b].url@ by {
                        if a != i as int {
                            assert(self.assets@[a] == old(self).assets@[a]);
                        }
                        if b != i as int {
                            assert(self.assets@[b] == old(self).assets@[b]);
                        }
                    }
                }
            },
            None => {
                self.assets.push(AssetEntry { url: url_s, data });
                proof {
                    let k = self.assets@.len() - 1;
                    assert(self.assets@[k].url@ == url@);
                    assert forall|a: int, b: int| 0 <= a < b < self.assets@.len() implies self.assets@[
                        a
                    ].url@ != self.assets@[b].url@ by {
                        if b == k {
                            assert(self.assets@[a] == old(self).assets@[a]);
                            assert(old(self).assets@[a].url@ != url@);
                        } else {
                            assert(self.assets@[a] == old(self).assets@[a]);
                            assert(self.assets@[b] == old(self).assets@[b]);
                        }
                    }
                }
            },
        }
    }

    /// The bytes stored under `url`: exactly the bytes of the one entry
    /// for that URL, or nothing when the URL was never stored.
    pub fn get_data(&self, url: &str) -> (r: Option<&Vec<u8>>)
        requires
            self.wf(),
        ensures
            r is Some <==> self.spec_has(url@),
            match r {
                Some(d) => forall|i: int|
                    0 <= i < self.assets@.len() && self.assets@[i].url@ == url@
                        ==> self.assets@[i].data@ == d@,
                None => true,
            },
    {
        let url_s: String = url.to_owned();
        match self.find(&url_s) {
            Some(i) => {
                let d = &self.assets[i].data;
                proof {
                    assert(self.assets@[i as int].url@ == url@ && self.assets@[i as int].data@
                        == d@);
                    assert forall|j: int|
                        0 <= j < self.assets@.len() && self.assets@[j].url@ == url@ implies self.assets@[
                        j
                    ].data@ == d@ by {
                        if j < i as int {
                            assert(self.assets@[j].url@ != self.assets@[i as int].url@);
                        } else if j > i as int {
                            assert(self.assets@[i as int].url@ != self.assets@[j].url@);
                        }
                    }
                }
                Some(d)
            },
            None => None,
        }
    }
}

} // verus!
