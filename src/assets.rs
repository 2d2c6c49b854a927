//! The table of embedded assets: fixed request paths mapped to in-memory
//! blobs and their declared content types. The embedding program fills it;
//! serving from it never touches the file system.

use vstd::prelude::*;
use vstd::string::StringSliceAdditionalSpecFns;
use crate::paths::bytes_equal;

verus! {

/// One embedded blob, served at `path`.
pub struct EmbeddedAsset {
    path: Vec<u8>,
    content_type: String,
    data: Vec<u8>,
}

/// What an embedded asset serves.
pub struct AssetView {
    pub content_type: Seq<char>,
    pub data: Seq<u8>,
}

impl EmbeddedAsset {
    pub closed spec fn key(&self) -> Seq<u8> {
        self.path@
    }

    pub closed spec fn asset_view(&self) -> AssetView {
        AssetView { content_type: self.content_type@, data: self.data@ }
    }

    /// The declared content type.
    pub fn content_type(&self) -> (r: &str)
        ensures
            r@ == self.asset_view().content_type,
    {
        self.content_type.as_str()
    }

    /// The blob.
    pub fn data(&self) -> (r: &[u8])
        ensures
            r@ == self.asset_view().data,
    {
        self.data.as_slice()
    }
}

/// The map that a list of assets gives, a later entry for a path replacing
/// an earlier one.
pub open spec fn assets_map(s: Seq<EmbeddedAsset>) -> Map<Seq<u8>, AssetView>
    decreases s.len(),
{
    if s.len() == 0 {
        Map::empty()
    } else {
        assets_map(s.drop_last()).insert(s.last().key(), s.last().asset_view())
    }
}

/// Embedded assets by request path (without its leading slash).
pub struct AssetTable {
    assets: Vec<EmbeddedAsset>,
}

impl View for AssetTable {
    type V = Map<Seq<u8>, AssetView>;

    closed spec fn view(&self) -> Map<Seq<u8>, AssetView> {
        assets_map(self.assets@)
    }
}

proof fn lemma_assets_map_prefix(s: Seq<EmbeddedAsset>, i: int, k: Seq<u8>)
    requires
        0 <= i <= s.len(),
        forall|j: int| i <= j < s.len() ==> (#[trigger] s[j]).key() != k,
    ensures
        assets_map(s).contains_key(k) == assets_map(s.subrange(0, i)).contains_key(k),
        assets_map(s)[k] == assets_map(s.subrange(0, i))[k],
    decreases s.len() - i,
{
    if i < s.len() {
        assert(s.drop_last().subrange(0, i) =~= s.subrange(0, i));
        lemma_assets_map_prefix(s.drop_last(), i, k);
    } else {
        assert(s.subrange(0, i) =~= s);
    }
}

impl AssetTable {
    /// An empty table.
    pub fn new() -> (r: AssetTable)
        ensures
            r@ == Map::<Seq<u8>, AssetView>::empty(),
    {
        AssetTable { assets: Vec::new() }
    }

    /// Serves `data` with `content_type` at `path` (given without its
    /// leading slash), replacing what was served there before.
    pub fn insert(&mut self, path: &str, content_type: &str, data: Vec<u8>)
        ensures
            final(self)@ == old(self)@.insert(
                path.spec_bytes(),
                AssetView { content_type: content_type@, data: data@ },
            ),
    {
        let asset = EmbeddedAsset {
            path: vstd::slice::slice_to_vec(path.as_bytes()),
            content_type: content_type.to_owned(),
            data,
        };
        let ghost before = self.assets@;
        self.assets.push(asset);
        assert(self.assets@.drop_last() =~= before);
    }

    /// The asset served at `path`, if any.
    pub fn lookup(&self, path: &[u8]) -> (r: Option<&EmbeddedAsset>)
        ensures
            r is Some <==> self@.contains_key(path@),
            r matches Some(a) ==> a.asset_view() == self@[path@],
    {
        let mut i: usize = self.assets.len();
        while i > 0
            invariant
                0 <= i <= self.assets@.len(),
                forall|j: int| i <= j < self.assets@.len() ==> (#[trigger] self.assets@[j]).key() != path@,
            decreases i,
        {
            let a = &self.assets[i - 1];
            if bytes_equal(a.path.as_slice(), path) {
                proof {
                    lemma_assets_map_prefix(self.assets@, i as int, path@);
                    assert(self.assets@.subrange(0, i as int).drop_last() =~= self.assets@.subrange(0, i - 1));
                }
                return Some(a);
            }
            i = i - 1;
        }
        proof {
            lemma_assets_map_prefix(self.assets@, 0, path@);
            assert(self.assets@.subrange(0, 0) =~= Seq::<EmbeddedAsset>::empty());
        }
        None
    }
}

} // verus!
