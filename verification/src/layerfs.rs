//! The layered-filesystem model: a root filesystem as a map from paths to
//! file contents, built by applying layers in manifest order. A layer is an
//! ordered sequence of file writes; applying a later layer overwrites
//! earlier layers' files at the same path.

use vstd::prelude::*;
use crate::text::str_eq;

verus! {

/// One file a layer writes: a path and its contents.
#[derive(Debug, Clone, PartialEq, Eq)]
pub struct FileEntry {
    pub path: String,
    pub data: Vec<u8>,
}

/// The map a sequence of file writes denotes: every path written maps to the
/// last contents written at it.
pub open spec fn layer_map(es: Seq<FileEntry>) -> Map<Seq<char>, Seq<u8>>
    decreases es.len(),
{
    if es.len() == 0 {
        Map::empty()
    } else {
        layer_map(es.drop_last()).insert(es.last().path@, es.last().data@)
    }
}

proof fn lemma_layer_map_last(es: Seq<FileEntry>, p: Seq<char>, j: int)
    requires
        0 <= j < es.len(),
        es[j].path@ == p,
        forall|k: int| j < k < es.len() ==> es[k].path@ != p,
    ensures
        layer_map(es).dom().contains(p),
        layer_map(es)[p] == es[j].data@,
    decreases es.len(),
{
    if j == es.len() - 1 {
    } else {
        let es1 = es.drop_last();
        assert(es1[j] == es[j]);
        lemma_layer_map_last(es1, p, j);
        assert(es.last().path@ != p);
    }
}

proof fn lemma_layer_map_absent(es: Seq<FileEntry>, p: Seq<char>)
    requires
        forall|k: int| 0 <= k < es.len() ==> es[k].path@ != p,
    ensures
        !layer_map(es).dom().contains(p),
    decreases es.len(),
{
    if es.len() > 0 {
        lemma_layer_map_absent(es.drop_last(), p);
    }
}

/// The writes of two layers, applied one after the other, denote the union
/// of their maps, the later layer preferred.
pub proof fn lemma_layer_map_concat(a: Seq<FileEntry>, b: Seq<FileEntry>)
    ensures
        layer_map(a + b) == layer_map(a).union_prefer_right(layer_map(b)),
    decreases b.len(),
{
    if b.len() == 0 {
        assert(a + b =~= a);
        assert(layer_map(a).union_prefer_right(layer_map(b)) =~= layer_map(a));
    } else {
        let b1 = b.drop_last();
        lemma_layer_map_concat(a, b1);
        assert((a + b).drop_last() =~= a + b1);
        assert((a + b).last() == b.last());
        assert(layer_map(a).union_prefer_right(layer_map(b1)).insert(
            b.last().path@,
            b.last().data@,
        ) =~= layer_map(a).union_prefer_right(layer_map(b1).insert(b.last().path@, b.last().data@)));
    }
}

/// A root filesystem under assembly: the file writes applied so far, in
/// order. Its view is the map of current contents, later writes winning.
#[derive(Debug)]
pub struct RootFs {
    writes: Vec<FileEntry>,
}

impl View for RootFs {
    type V = Map<Seq<char>, Seq<u8>>;

    closed spec fn view(&self) -> Map<Seq<char>, Seq<u8>> {
        layer_map(self.writes@)
    }
}

impl RootFs {
    /// An empty root filesystem.
    pub fn new() -> (r: RootFs)
        ensures
            r@ == Map::<Seq<char>, Seq<u8>>::empty(),
    {
        RootFs { writes: Vec::new() }
    }

    /// Apply one layer: its writes land after everything applied before, so
    /// this layer's files overwrite earlier layers' files at the same paths.
    pub fn apply_layer(&mut self, layer: Vec<FileEntry>)
        ensures
            final(self)@ == old(self)@.union_prefer_right(layer_map(layer@)),
    {
        let ghost pre = self.writes@;
        let mut entries = layer;
        self.writes.append(&mut entries);
        proof {
            lemma_layer_map_concat(pre, layer@);
        }
    }

    /// The current contents at `path`, if any layer wrote it.
    pub fn lookup(&self, path: &str) -> (r: Option<&Vec<u8>>)
        ensures
            match r {
                Some(d) => self@.dom().contains(path@) && self@[path@] == d@,
                None => !self@.dom().contains(path@),
            },
    {
        let n = self.writes.len();
        let mut i = n;
        while i > 0
            invariant
                0 <= i <= n,
                n == self.writes@.len(),
                forall|k: int| i <= k < n ==> self.writes@[k].path@ != path@,
            decreases i,
        {
            i = i - 1;
            if str_eq(self.writes[i].path.as_str(), path) {
                proof {
                    lemma_layer_map_last(self.writes@, path@, i as int);
                }
                return Some(&self.writes[i].data);
            }
        }
        proof {
            lemma_layer_map_absent(self.writes@, path@);
        }
        None
    }
}

/// Later layers win: at every path the second layer writes, a filesystem
/// that applied the first and then the second layer holds the second
/// layer's contents; at a path only the first layer writes, the first's;
/// elsewhere it is unchanged.
pub proof fn lemma_layer_ordering(
    fs: Map<Seq<char>, Seq<u8>>,
    l1: Seq<FileEntry>,
    l2: Seq<FileEntry>,
    p: Seq<char>,
)
    ensures
        ({
            let m = fs.union_prefer_right(layer_map(l1)).union_prefer_right(layer_map(l2));
            &&& layer_map(l2).dom().contains(p) ==> m[p] == layer_map(l2)[p]
            &&& !layer_map(l2).dom().contains(p) && layer_map(l1).dom().contains(p) ==> m[p]
                == layer_map(l1)[p]
            &&& !layer_map(l2).dom().contains(p) && !layer_map(l1).dom().contains(p) ==> (
            m.dom().contains(p) == fs.dom().contains(p) && (fs.dom().contains(p) ==> m[p] == fs[p]))
        }),
{
}

} // verus!
