//! A content-addressed cache for rasterized vector assets.
//!
//! Documents are parsed once per content identity and rasterized once per
//! requested pixel size; a per-frame touched set drives eviction on `trim`.

use vstd::prelude::*;
use std::rc::Rc;
use crate::table::{Key, KeySet, Table};

verus! {

/// A vector asset: a caller-chosen content identity and the SVG source bytes.
pub struct Handle {
    pub id: u64,
    pub data: Vec<u8>,
}

impl Handle {
    pub fn new(id: u64, data: Vec<u8>) -> (r: Self)
        ensures
            r.id == id,
            r.data@ == data@,
    {
        Handle { id, data }
    }
}

/// A rasterized asset: pixel dimensions and the raw surface bytes, four per
/// pixel. Draw calls share it through `Rc`, so a cached bitmap stays alive
/// while any holder remains.
pub struct Bitmap {
    pub width: u32,
    pub height: u32,
    pub pixels: Vec<u8>,
}

#[verifier::external_type_specification]
#[verifier::external_body]
pub struct ExTree(resvg::usvg::Tree);

/// A document looked up by content identity: its parsed form together with its
/// intrinsic size, or the record that parsing failed.
pub enum Svg {
    Loaded { tree: resvg::usvg::Tree, width: u32, height: u32 },
    NotFound,
}

impl Svg {
    /// The intrinsic size of the document, or a one-pixel placeholder for a
    /// document that could not be parsed.
    pub open spec fn dimensions(self) -> (u32, u32) {
        match self {
            Svg::Loaded { width, height, .. } => (width, height),
            Svg::NotFound => (1u32, 1u32),
        }
    }

    pub fn viewport_dimensions(&self) -> (r: (u32, u32))
        ensures
            r == self.dimensions(),
    {
        match self {
            Svg::Loaded { width, height, .. } => (*width, *height),
            Svg::NotFound => (1, 1),
        }
    }
}

/// What parsing yields for given bytes: the document's intrinsic pixel size,
/// or nothing when the bytes are not a well-formed document.
pub uninterp spec fn svg_doc_size(data: Seq<u8>) -> Option<(u32, u32)>;

/// The cached document for some bytes agrees with what parsing those bytes
/// yields.
pub open spec fn svg_matches(s: Svg, data: Seq<u8>) -> bool {
    match svg_doc_size(data) {
        Some(d) => s matches Svg::Loaded { tree, width, height } && (width, height) == d,
        None => s is NotFound,
    }
}

/// Relies on usvg::Tree::from_data and Tree::size, through resvg's re-export.
/// References to external image files are left unresolved (embedded data
/// references still decode), so whether the bytes parse, and the document's
/// intrinsic size, depend on the bytes alone. The size is usvg's rounded
/// integer size, at least one pixel per axis.
#[verifier::external_body]
fn parse_svg(data: &Vec<u8>) -> (r: Option<(resvg::usvg::Tree, u32, u32)>)
    ensures
        match r {
            Some((t, w, h)) => svg_doc_size(data@) == Some((w, h)),
            None => svg_doc_size(data@) is None,
        },
{
    let mut opt = resvg::usvg::Options::default();
    opt.image_href_resolver.resolve_string = Box::new(|_, _| None);
    match resvg::usvg::Tree::from_data(data, &opt) {
        Ok(tree) => {
            let size = tree.size().to_int_size();
            let (w, h) = (size.width(), size.height());
            Some((tree, w, h))
        }
        Err(_) => None,
    }
}

/// Relies on tiny_skia::Pixmap and resvg::render, through resvg's re-export: a
/// surface of the given pixel dimensions holds four bytes per pixel, and
/// rendering fails only by failing to allocate the surface.
#[verifier::external_body]
fn rasterize(tree: &resvg::usvg::Tree, width: u32, height: u32) -> (r: Option<Vec<u8>>)
    ensures
        r matches Some(px) ==> px@.len() == 4 * width * height,
{
    let mut pixmap = resvg::tiny_skia::Pixmap::new(width, height)?;
    let target = resvg::tiny_skia::IntSize::from_wh(width, height)?;
    let sx = target.to_size().width() / tree.size().width();
    let sy = target.to_size().height() / tree.size().height();
    let transform = resvg::tiny_skia::Transform::from_scale(sx, sy);
    resvg::render(tree, transform, &mut pixmap.as_mut());
    Some(pixmap.take())
}

/// Relies on Rc::clone: the clone is a handle to the same allocation, so it
/// carries the same value.
#[verifier::external_body]
fn rc_clone<T>(v: &Rc<T>) -> (res: Rc<T>)
    ensures
        res == *v,
{
    v.clone()
}

/// A key of the rasterized cache: content identity and pixel dimensions.
#[derive(Clone, Copy)]
pub struct RasterKey {
    pub id: u64,
    pub width: u32,
    pub height: u32,
}

impl Key for RasterKey {
    fn key_eq(&self, other: &Self) -> (r: bool) {
        self.id == other.id && self.width == other.width && self.height == other.height
    }
}

/// The pixel extent of a logical extent under a scale given in hundredths: the
/// scaled value rounded to the nearest whole pixel, capped at the largest
/// representable extent.
pub open spec fn scaled(logical: u32, scale_hundredths: u32) -> u32 {
    let v = (logical as int * scale_hundredths as int + 50) / 100;
    if v > u32::MAX as int {
        u32::MAX
    } else {
        v as u32
    }
}

pub fn scale_size(logical: u32, scale_hundredths: u32) -> (r: u32)
    ensures
        r == scaled(logical, scale_hundredths),
{
    proof {
        assert((logical as int) * (scale_hundredths as int)
            <= (u32::MAX as int) * (u32::MAX as int)) by (nonlinear_arith)
            requires logical <= u32::MAX && scale_hundredths <= u32::MAX;
    }
    let v: u64 = ((logical as u64) * (scale_hundredths as u64) + 50) / 100;
    if v > (u32::MAX as u64) {
        u32::MAX
    } else {
        v as u32
    }
}

/// The two-level render cache: parsed documents by content identity,
/// rasterized bitmaps by content identity and pixel size, and the per-frame
/// touched sets of both.
pub struct Cache {
    pub svgs: Table<u64, Svg>,
    pub rasterized: Table<RasterKey, Rc<Bitmap>>,
    pub svg_hits: KeySet<u64>,
    pub rasterized_hits: KeySet<RasterKey>,
}

/// Loading leaves a present document alone and otherwise records exactly what
/// parsing the bytes yields, under the handle's identity.
pub open spec fn docs_after_load(
    pre: Map<u64, Svg>,
    post: Map<u64, Svg>,
    id: u64,
    data: Seq<u8>,
) -> bool {
    if pre.contains_key(id) {
        post == pre
    } else {
        &&& post.contains_key(id)
        &&& svg_matches(post[id], data)
        &&& post.remove(id) == pre
    }
}

/// An upload that finds its triple in the rasterized cache: it returns exactly
/// the cached bitmap, touches the document and the triple, and changes nothing
/// else.
pub open spec fn upload_hit(pre: Cache, post: Cache, key: RasterKey, r: Option<Rc<Bitmap>>) -> bool {
    &&& r == Some(pre.rasterized@[key])
    &&& post.svgs == pre.svgs
    &&& post.rasterized == pre.rasterized
    &&& post.svg_hits@ == pre.svg_hits@.insert(key.id)
    &&& post.rasterized_hits@ == pre.rasterized_hits@.insert(key)
}

/// An upload that misses: the document is loaded; a bitmap comes back exactly
/// when the document parsed, neither target extent rounds to zero, and the
/// surface could be made, and it is then cached under the triple and both
/// levels are touched. A failed attempt caches nothing and touches nothing, so
/// the next request tries again.
pub open spec fn upload_miss(
    pre: Cache,
    post: Cache,
    handle: Handle,
    key: RasterKey,
    r: Option<Rc<Bitmap>>,
) -> bool {
    &&& docs_after_load(pre.svgs@, post.svgs@, handle.id, handle.data@)
    &&& match r {
        Some(bm) => {
            &&& post.svgs@[handle.id] is Loaded
            &&& key.width > 0 && key.height > 0
            &&& bm.width == key.width && bm.height == key.height
            &&& bm.pixels@.len() == 4 * key.width * key.height
            &&& post.rasterized@ == pre.rasterized@.insert(key, bm)
            &&& post.svg_hits@ == pre.svg_hits@.insert(handle.id)
            &&& post.rasterized_hits@ == pre.rasterized_hits@.insert(key)
        },
        None => {
            &&& post.rasterized@ == pre.rasterized@
            &&& post.svg_hits@ == pre.svg_hits@
            &&& post.rasterized_hits@ == pre.rasterized_hits@
        },
    }
}

/// The full behaviour of one upload, keyed on whether the requested triple was
/// already rasterized.
pub open spec fn upload_post(
    pre: Cache,
    post: Cache,
    handle: Handle,
    width: u32,
    height: u32,
    scale_hundredths: u32,
    r: Option<Rc<Bitmap>>,
) -> bool {
    let key = RasterKey {
        id: handle.id,
        width: scaled(width, scale_hundredths),
        height: scaled(height, scale_hundredths),
    };
    if pre.rasterized@.contains_key(key) {
        upload_hit(pre, post, key, r)
    } else {
        upload_miss(pre, post, handle, key, r)
    }
}

/// A trim keeps exactly the entries touched since the previous trim and clears
/// both touched sets.
pub open spec fn trim_post(pre: Cache, post: Cache) -> bool {
    &&& post.svgs@ == pre.svgs@.restrict(pre.svg_hits@)
    &&& post.rasterized@ == pre.rasterized@.restrict(pre.rasterized_hits@)
    &&& post.svg_hits@ == Set::<u64>::empty()
    &&& post.rasterized_hits@ == Set::<RasterKey>::empty()
}

impl Cache {
    /// Internal consistency: the tables are well formed, touched entries are
    /// present, every rasterized triple has its document loaded, and every
    /// cached bitmap has the dimensions and byte count its key promises.
    pub open spec fn inv(self) -> bool {
        &&& self.svgs.wf()
        &&& self.rasterized.wf()
        &&& forall|id: u64| #[trigger] self.svg_hits@.contains(id)
            ==> self.svgs@.contains_key(id)
        &&& forall|k: RasterKey| #[trigger] self.rasterized_hits@.contains(k)
            ==> self.rasterized@.contains_key(k) && self.svg_hits@.contains(k.id)
        &&& forall|k: RasterKey| #[trigger] self.rasterized@.contains_key(k)
            ==> self.svgs@.contains_key(k.id)
                && self.rasterized@[k].width == k.width
                && self.rasterized@[k].height == k.height
                && self.rasterized@[k].pixels@.len() == 4 * k.width * k.height
    }

    pub fn new() -> (r: Self)
        ensures
            r.inv(),
            r.svgs@ == Map::<u64, Svg>::empty(),
            r.rasterized@ == Map::<RasterKey, Rc<Bitmap>>::empty(),
            r.svg_hits@ == Set::<u64>::empty(),
            r.rasterized_hits@ == Set::<RasterKey>::empty(),
    {
        Cache {
            svgs: Table::new(),
            rasterized: Table::new(),
            svg_hits: KeySet::new(),
            rasterized_hits: KeySet::new(),
        }
    }

    /// How many documents are loaded or recorded as failed.
    pub fn document_count(&self) -> (n: usize)
        ensures
            n == self.svgs.entries@.len(),
    {
        self.svgs.len()
    }

    /// How many bitmaps are cached.
    pub fn rasterized_count(&self) -> (n: usize)
        ensures
            n == self.rasterized.entries@.len(),
    {
        self.rasterized.len()
    }

    /// Parses the document behind `handle` unless a document (or a parse
    /// failure) is already recorded for its identity, and returns the record.
    pub fn load(&mut self, handle: &Handle) -> (r: &Svg)
        requires
            old(self).inv(),
        ensures
            final(self).inv(),
            final(self).rasterized == old(self).rasterized,
            final(self).svg_hits == old(self).svg_hits,
            final(self).rasterized_hits == old(self).rasterized_hits,
            docs_after_load(old(self).svgs@, final(self).svgs@, handle.id, handle.data@),
            final(self).svgs@.contains_key(handle.id),
            *r == final(self).svgs@[handle.id],
    {
        if !self.svgs.contains_key(&handle.id) {
            let doc = match parse_svg(&handle.data) {
                Some((tree, width, height)) => Svg::Loaded { tree, width, height },
                None => Svg::NotFound,
            };
            self.svgs.insert(handle.id, doc);
            proof {
                assert(self.svgs@.remove(handle.id) =~= old(self).svgs@);
            }
        }
        match self.svgs.get(&handle.id) {
            Some(svg) => svg,
            None => {
                proof {
                    assert(false);
                }
                &Svg::NotFound
            },
        }
    }

    /// Returns the shared bitmap of `handle` rasterized at the logical size
    /// scaled by `scale_hundredths` (a scale in hundredths), rasterizing and
    /// caching it on the first request of the triple and reusing it afterward.
    pub fn upload(
        &mut self,
        handle: &Handle,
        width: u32,
        height: u32,
        scale_hundredths: u32,
    ) -> (r: Option<Rc<Bitmap>>)
        requires
            old(self).inv(),
        ensures
            final(self).inv(),
            upload_post(*old(self), *final(self), *handle, width, height, scale_hundredths, r),
    {
        let tw = scale_size(width, scale_hundredths);
        let th = scale_size(height, scale_hundredths);
        let key = RasterKey { id: handle.id, width: tw, height: th };
        let hit = match self.rasterized.get(&key) {
            Some(b) => Some(rc_clone(b)),
            None => None,
        };
        match hit {
            Some(b) => {
                self.svg_hits.insert(handle.id);
                self.rasterized_hits.insert(key);
                Some(b)
            },
            None => {
                let _ = self.load(handle);
                let pixels: Option<Vec<u8>> = if tw == 0 || th == 0 {
                    None
                } else {
                    match self.svgs.get(&handle.id) {
                        Some(s) => match s {
                            Svg::Loaded { tree, .. } => rasterize(tree, tw, th),
                            Svg::NotFound => None,
                        },
                        None => None,
                    }
                };
                match pixels {
                    Some(px) => {
                        let bm = Rc::new(Bitmap { width: tw, height: th, pixels: px });
                        let ret = rc_clone(&bm);
                        self.rasterized.insert(key, bm);
                        self.svg_hits.insert(handle.id);
                        self.rasterized_hits.insert(key);
                        Some(ret)
                    },
                    None => None,
                }
            },
        }
    }

    /// Evicts every document and bitmap not touched since the previous trim
    /// and clears the touched sets. Meant to run once per frame, after the
    /// frame's draw calls are issued.
    pub fn trim(&mut self)
        requires
            old(self).inv(),
        ensures
            final(self).inv(),
            trim_post(*old(self), *final(self)),
    {
        self.svgs.retain_keys(&self.svg_hits);
        self.rasterized.retain_keys(&self.rasterized_hits);
        self.svg_hits.clear();
        self.rasterized_hits.clear();
    }
}

/// Of repeated uploads of one triple only the first rasterizes: once an upload
/// has returned a bitmap, uploading the same triple again returns that very
/// bitmap and changes neither cache level.
pub proof fn lemma_repeated_upload(
    pre: Cache,
    mid: Cache,
    post: Cache,
    handle: Handle,
    width: u32,
    height: u32,
    scale_hundredths: u32,
    r1: Option<Rc<Bitmap>>,
    r2: Option<Rc<Bitmap>>,
)
    requires
        upload_post(pre, mid, handle, width, height, scale_hundredths, r1),
        upload_post(mid, post, handle, width, height, scale_hundredths, r2),
        r1 is Some,
    ensures
        r2 == r1,
        post.rasterized@ == mid.rasterized@,
        post.svgs@ == mid.svgs@,
{
}

/// One upload grows the parsed-document cache by at most the uploaded handle's
/// document, whatever size was requested: requesting many sizes of one
/// document parses it once.
pub proof fn lemma_upload_document_growth(
    pre: Cache,
    post: Cache,
    handle: Handle,
    width: u32,
    height: u32,
    scale_hundredths: u32,
    r: Option<Rc<Bitmap>>,
)
    requires
        upload_post(pre, post, handle, width, height, scale_hundredths, r),
    ensures
        post.svgs@.dom().subset_of(pre.svgs@.dom().insert(handle.id)),
{
    let key = RasterKey {
        id: handle.id,
        width: scaled(width, scale_hundredths),
        height: scaled(height, scale_hundredths),
    };
    if pre.rasterized@.contains_key(key) {
        assert(post.svgs@.dom() =~= pre.svgs@.dom());
    } else {
        if pre.svgs@.contains_key(handle.id) {
            assert(post.svgs@.dom() =~= pre.svgs@.dom());
        } else {
            assert forall|q: u64| post.svgs@.dom().contains(q)
                implies pre.svgs@.dom().insert(handle.id).contains(q) by {
                if q != handle.id {
                    assert(post.svgs@.remove(handle.id).contains_key(q));
                }
            }
        }
    }
}

/// After a trim, exactly the triples requested since the previous trim remain
/// in the rasterized cache, with their bitmaps unchanged.
pub proof fn lemma_trim_exact(pre: Cache, post: Cache)
    requires
        pre.inv(),
        trim_post(pre, post),
    ensures
        forall|k: RasterKey| #[trigger] post.rasterized@.contains_key(k)
            <==> pre.rasterized_hits@.contains(k),
        forall|k: RasterKey| #[trigger] post.rasterized@.contains_key(k)
            ==> post.rasterized@[k] == pre.rasterized@[k],
{
}

/// Two trims with nothing uploaded between them leave both cache levels
/// empty: the first trim clears the touched sets, so the second retains
/// nothing.
pub proof fn lemma_trim_twice_empties(pre: Cache, mid: Cache, post: Cache)
    requires
        trim_post(pre, mid),
        trim_post(mid, post),
    ensures
        post.svgs@ == Map::<u64, Svg>::empty(),
        post.rasterized@ == Map::<RasterKey, Rc<Bitmap>>::empty(),
{
    assert(post.svgs@ =~= Map::<u64, Svg>::empty());
    assert(post.rasterized@ =~= Map::<RasterKey, Rc<Bitmap>>::empty());
}

} // verus!
